//! The build-time secrets: a file of `KEY=VALUE` lines.
use crate::text;
use vstd::prelude::*;

verus! {

/// The name of the Wi-Fi network.
pub const WIFI_SSID: &'static str = "WIFI_SSID";

/// The password of the Wi-Fi network.
pub const WIFI_PASSWORD: &'static str = "WIFI_PASSWORD";

/// The access token for ThingsBoard.
pub const THINGSBOARD_TOKEN: &'static str = "THINGSBOARD_TOKEN";

/// Whether a character is white space, as Unicode has it.
pub open spec fn is_space(c: char) -> bool {
    ||| '\u{9}' <= c <= '\u{d}'
    ||| c == ' '
    ||| c == '\u{85}'
    ||| c == '\u{a0}'
    ||| c == '\u{1680}'
    ||| '\u{2000}' <= c <= '\u{200a}'
    ||| c == '\u{2028}'
    ||| c == '\u{2029}'
    ||| c == '\u{202f}'
    ||| c == '\u{205f}'
    ||| c == '\u{3000}'
}

/// The text without the white space at its beginning.
pub open spec fn trim_start(s: Seq<char>) -> Seq<char>
    decreases s.len(),
{
    if s.len() > 0 && is_space(s.first()) {
        trim_start(s.drop_first())
    } else {
        s
    }
}

/// The text without the white space at its end.
pub open spec fn trim_end(s: Seq<char>) -> Seq<char>
    decreases s.len(),
{
    if s.len() > 0 && is_space(s.last()) {
        trim_end(s.drop_last())
    } else {
        s
    }
}

/// The text without the white space around it.
pub open spec fn trim(s: Seq<char>) -> Seq<char> {
    trim_end(trim_start(s))
}

/// Where a character first occurs, or the length of the text if it does not.
pub open spec fn find(s: Seq<char>, c: char) -> int
    decreases s.len(),
{
    if s.len() == 0 || s.first() == c {
        0
    } else {
        1 + find(s.drop_first(), c)
    }
}

/// The key and the value that a line assigns. A comment, and a line without an equals sign,
/// assigns nothing. The key ends at the first equals sign.
pub open spec fn assignment(line: Seq<char>) -> Option<(Seq<char>, Seq<char>)> {
    let start = trim_start(line);
    let equals = find(line, '=');
    if start.len() > 0 && start.first() == '#' {
        None
    } else if equals == line.len() {
        None
    } else {
        Some((trim(line.take(equals)), trim(line.skip(equals + 1))))
    }
}

/// The value that a line assigns to a key, if it does.
pub open spec fn assigned(line: Seq<char>, key: Seq<char>) -> Option<Seq<char>> {
    match assignment(line) {
        Some((k, v)) => if k == key {
            Some(v)
        } else {
            None
        },
        None => None,
    }
}

/// The first line of a text.
pub open spec fn first_line(s: Seq<char>) -> Seq<char> {
    s.take(find(s, '\n'))
}

/// The text after its first line.
pub open spec fn other_lines(s: Seq<char>) -> Seq<char> {
    if find(s, '\n') < s.len() {
        s.skip(find(s, '\n') + 1)
    } else {
        Seq::empty()
    }
}

/// A search ends at the first occurrence, or at the end of a text without one.
pub proof fn find_in_range(s: Seq<char>, c: char)
    ensures
        0 <= find(s, c) <= s.len(),
        find(s, c) < s.len() ==> s[find(s, c)] == c,
        forall|i: int| 0 <= i < find(s, c) ==> s[i] != c,
    decreases s.len(),
{
    if s.len() > 0 && s.first() != c {
        find_in_range(s.drop_first(), c);
        assert forall|i: int| 0 <= i < find(s, c) implies s[i] != c by {
            if i > 0 {
                assert(s[i] == s.drop_first()[i - 1]);
            }
        }
    }
}

proof fn find_is(s: Seq<char>, c: char, n: int)
    requires
        0 <= n <= s.len(),
        n < s.len() ==> s[n] == c,
        forall|i: int| 0 <= i < n ==> s[i] != c,
    ensures
        find(s, c) == n,
{
    find_in_range(s, c);
}

/// The value of a key: that of the last line that assigns it, if any.
pub open spec fn value_of(s: Seq<char>, key: Seq<char>) -> Option<Seq<char>>
    decreases s.len(),
{
    if s.len() == 0 {
        None
    } else {
        proof {
            find_in_range(s, '\n');
        }
        match value_of(other_lines(s), key) {
            Some(v) => Some(v),
            None => assigned(first_line(s), key),
        }
    }
}

/// Whether a character is white space.
pub fn is_white_space(c: char) -> (r: bool)
    ensures
        r == is_space(c),
{
    ('\u{9}' <= c && c <= '\u{d}') || c == ' ' || c == '\u{85}' || c == '\u{a0}' || c
        == '\u{1680}' || ('\u{2000}' <= c && c <= '\u{200a}') || c == '\u{2028}' || c
        == '\u{2029}' || c == '\u{202f}' || c == '\u{205f}' || c == '\u{3000}'
}

/// Where the text from `lo` to `hi` begins, white space aside.
fn text_start(chars: &Vec<char>, lo: usize, hi: usize) -> (r: usize)
    requires
        lo <= hi <= chars@.len(),
    ensures
        lo <= r <= hi,
        trim_start(chars@.subrange(lo as int, hi as int)) == chars@.subrange(r as int, hi as int),
{
    let mut r: usize = lo;
    while r < hi && is_white_space(chars[r])
        invariant
            lo <= r <= hi <= chars@.len(),
            trim_start(chars@.subrange(lo as int, hi as int)) == trim_start(
                chars@.subrange(r as int, hi as int),
            ),
        decreases hi - r,
    {
        assert(chars@.subrange(r as int, hi as int).drop_first() =~= chars@.subrange(
            r + 1,
            hi as int,
        ));
        r = r + 1;
    }
    r
}

/// Where the text from `lo` to `hi` ends, white space aside.
fn text_end(chars: &Vec<char>, lo: usize, hi: usize) -> (r: usize)
    requires
        lo <= hi <= chars@.len(),
    ensures
        lo <= r <= hi,
        trim_end(chars@.subrange(lo as int, hi as int)) == chars@.subrange(lo as int, r as int),
{
    let mut r: usize = hi;
    while r > lo && is_white_space(chars[r - 1])
        invariant
            lo <= r <= hi <= chars@.len(),
            trim_end(chars@.subrange(lo as int, hi as int)) == trim_end(
                chars@.subrange(lo as int, r as int),
            ),
        decreases r,
    {
        assert(chars@.subrange(lo as int, r as int).drop_last() =~= chars@.subrange(
            lo as int,
            r - 1,
        ));
        r = r - 1;
    }
    r
}

/// Where a character first occurs from `lo` to `hi`, or `hi` if it does not.
fn find_from(chars: &Vec<char>, c: char, lo: usize, hi: usize) -> (r: usize)
    requires
        lo <= hi <= chars@.len(),
    ensures
        lo <= r <= hi,
        find(chars@.subrange(lo as int, hi as int), c) == r - lo,
{
    let mut r: usize = lo;
    while r < hi && chars[r] != c
        invariant
            lo <= r <= hi <= chars@.len(),
            forall|i: int| lo <= i < r ==> chars@[i] != c,
        decreases hi - r,
    {
        r = r + 1;
    }
    proof {
        find_is(chars@.subrange(lo as int, hi as int), c, r - lo);
    }
    r
}

/// The text from `lo` to `hi` of `content`, without the white space around it.
fn trimmed(content: &str, chars: &Vec<char>, lo: usize, hi: usize) -> (r: String)
    requires
        chars@ == content@,
        lo <= hi <= chars@.len(),
    ensures
        r@ == trim(content@.subrange(lo as int, hi as int)),
{
    let start: usize = text_start(chars, lo, hi);
    let end: usize = text_end(chars, start, hi);
    content.substring_char(start, end).to_owned()
}

/// The value that the line from `lo` to `hi` of `content` assigns to a key, if it does.
fn line_value(content: &str, chars: &Vec<char>, lo: usize, hi: usize, key: &str) -> (r: Option<
    String,
>)
    requires
        chars@ == content@,
        lo <= hi <= chars@.len(),
    ensures
        match r {
            Some(value) => assigned(content@.subrange(lo as int, hi as int), key@) == Some(value@),
            None => assigned(content@.subrange(lo as int, hi as int), key@) is None,
        },
{
    let ghost line = content@.subrange(lo as int, hi as int);
    let start: usize = text_start(chars, lo, hi);
    if start < hi && chars[start] == '#' {
        return None;
    }
    let equals: usize = find_from(chars, '=', lo, hi);
    if equals == hi {
        return None;
    }
    assert(line.take(equals - lo) =~= content@.subrange(lo as int, equals as int));
    assert(line.skip(equals - lo + 1) =~= content@.subrange(equals + 1, hi as int));
    if trimmed(content, chars, lo, equals) == key.to_owned() {
        Some(trimmed(content, chars, equals + 1, hi))
    } else {
        None
    }
}

/// The value of a key in the text of a secrets file, if it is assigned. The last line that
/// assigns it counts.
pub fn lookup(content: &str, key: &str) -> (r: Option<String>)
    ensures
        match r {
            Some(value) => value_of(content@, key@) == Some(value@),
            None => value_of(content@, key@) is None,
        },
{
    let chars = text::characters(content);
    let len: usize = chars.len();
    let mut value: Option<String> = None;
    let mut lo: usize = 0;
    assert(content@.skip(0) =~= content@);
    while lo < len
        invariant
            chars@ == content@,
            len == chars@.len(),
            lo <= len,
            value_of(content@, key@) == (match value_of(content@.skip(lo as int), key@) {
                Some(v) => Some(v),
                None => match value {
                    Some(v) => Some(v@),
                    None => None,
                },
            }),
        decreases len - lo,
    {
        let ghost rest = content@.skip(lo as int);
        let hi: usize = find_from(&chars, '\n', lo, len);
        assert(rest =~= content@.subrange(lo as int, len as int));
        assert(first_line(rest) =~= content@.subrange(lo as int, hi as int));
        assert(other_lines(rest) =~= content@.skip(
            if hi < len {
                hi + 1
            } else {
                len as int
            },
        ));
        if let Some(v) = line_value(content, &chars, lo, hi, key) {
            value = Some(v);
        }
        lo = if hi < len {
            hi + 1
        } else {
            len
        };
    }
    assert(content@.skip(len as int) =~= Seq::<char>::empty());
    value
}

/// The build directive that sets a variable, to nothing if it has no value.
pub open spec fn directive(s: Seq<char>, variable: Seq<char>) -> Seq<char> {
    "cargo:rustc-env="@ + variable + "="@ + (match value_of(s, variable) {
        Some(v) => v,
        None => Seq::empty(),
    })
}

/// Writes the build directive that sets a variable.
pub fn rustc_env(content: &str, variable: &str) -> (r: String)
    ensures
        r@ == directive(content@, variable@),
        value_of(content@, variable@) is Some ==> r@ == "cargo:rustc-env="@ + variable@ + "="@
            + value_of(content@, variable@)->Some_0,
        value_of(content@, variable@) is None ==> r@ == "cargo:rustc-env="@ + variable@ + "="@,
{
    let mut line = "cargo:rustc-env=".to_owned();
    line.append(variable);
    line.append("=");
    if let Some(value) = lookup(content, variable) {
        line.append(value.as_str());
    }
    assert(line@ =~= directive(content@, variable@));
    line
}

/// Writes the build directives of the firmware.
pub fn rustc_env_directives(content: &str) -> (r: Vec<String>)
    ensures
        r@.len() == 3,
        r@[0]@ == directive(content@, WIFI_SSID@),
        r@[1]@ == directive(content@, WIFI_PASSWORD@),
        r@[2]@ == directive(content@, THINGSBOARD_TOKEN@),
{
    let mut lines: Vec<String> = Vec::new();
    lines.push(rustc_env(content, WIFI_SSID));
    lines.push(rustc_env(content, WIFI_PASSWORD));
    lines.push(rustc_env(content, THINGSBOARD_TOKEN));
    lines
}

/// Later lines go before earlier ones: in two texts one after the other, the second decides on
/// every key that it assigns, and the first on all others.
pub proof fn later_lines_win(s: Seq<char>, t: Seq<char>, key: Seq<char>)
    ensures
        value_of(s.push('\n') + t, key) == (match value_of(t, key) {
            Some(v) => Some(v),
            None => value_of(s, key),
        }),
    decreases s.len(),
{
    let whole = s.push('\n') + t;
    find_in_range(s, '\n');
    let n = find(s, '\n');
    find_is(whole, '\n', n);
    if n == s.len() {
        assert(first_line(whole) =~= s);
        assert(other_lines(whole) =~= t);
        if s.len() == 0 {
            assert(find(s, '=') == 0);
        } else {
            assert(first_line(s) =~= s);
            assert(value_of(other_lines(s), key) is None);
        }
    } else {
        let rest = s.skip(n + 1);
        assert(first_line(whole) =~= first_line(s));
        assert(other_lines(whole) =~= rest.push('\n') + t);
        assert(other_lines(s) =~= rest);
        later_lines_win(rest, t, key);
    }
}

/// What is left of a text without the white space around it does not begin or end with any.
proof fn trim_leaves_no_space(s: Seq<char>)
    ensures
        trim(s).len() > 0 ==> !is_space(trim(s).first()) && !is_space(trim(s).last()),
{
    trim_start_leaves_no_space(s);
    trim_end_leaves_no_space(trim_start(s));
}

proof fn trim_start_leaves_no_space(s: Seq<char>)
    ensures
        trim_start(s).len() > 0 ==> !is_space(trim_start(s).first()),
    decreases s.len(),
{
    if s.len() > 0 && is_space(s.first()) {
        trim_start_leaves_no_space(s.drop_first());
    }
}

proof fn trim_end_leaves_no_space(s: Seq<char>)
    ensures
        trim_end(s).len() > 0 ==> !is_space(trim_end(s).last()) && s.len() > 0 && trim_end(
            s,
        ).first() == s.first(),
    decreases s.len(),
{
    if s.len() > 0 && is_space(s.last()) {
        trim_end_leaves_no_space(s.drop_last());
    }
}

/// A value never begins or ends with white space.
pub proof fn values_are_trimmed(s: Seq<char>, key: Seq<char>)
    ensures
        value_of(s, key) is Some && value_of(s, key)->Some_0.len() > 0 ==> !is_space(
            value_of(s, key)->Some_0.first(),
        ) && !is_space(value_of(s, key)->Some_0.last()),
    decreases s.len(),
{
    if s.len() > 0 {
        find_in_range(s, '\n');
        values_are_trimmed(other_lines(s), key);
        let line = first_line(s);
        trim_leaves_no_space(line.skip(find(line, '=') + 1));
    }
}

/// A comment assigns nothing, whatever follows the number sign.
pub proof fn comments_assign_nothing(indent: Seq<char>, rest: Seq<char>, key: Seq<char>)
    requires
        forall|i: int| 0 <= i < indent.len() ==> is_space(#[trigger] indent[i]),
    ensures
        assigned(indent.push('#') + rest, key) is None,
{
    trim_start_drops_spaces(indent, seq!['#'] + rest);
    assert(indent.push('#') + rest =~= indent + (seq!['#'] + rest));
}

proof fn trim_start_drops_spaces(indent: Seq<char>, s: Seq<char>)
    requires
        forall|i: int| 0 <= i < indent.len() ==> is_space(#[trigger] indent[i]),
    ensures
        trim_start(indent + s) == trim_start(s),
    decreases indent.len(),
{
    if indent.len() > 0 {
        assert(is_space(indent[0]));
        assert((indent + s).drop_first() =~= indent.drop_first() + s);
        assert forall|i: int| 0 <= i < indent.drop_first().len() implies is_space(
            #[trigger] indent.drop_first()[i],
        ) by {
            assert(is_space(indent[i + 1]));
        }
        trim_start_drops_spaces(indent.drop_first(), s);
    } else {
        assert(indent + s =~= s);
    }
}

/// Whether a text is white space throughout, on one line.
pub open spec fn is_padding(s: Seq<char>) -> bool {
    forall|i: int| 0 <= i < s.len() ==> is_space(#[trigger] s[i]) && s[i] != '\n'
}

/// Whether a text neither begins nor ends with white space.
pub open spec fn is_bare(s: Seq<char>) -> bool {
    s.len() > 0 ==> !is_space(s.first()) && !is_space(s.last())
}

proof fn trim_end_drops_spaces(s: Seq<char>, after: Seq<char>)
    requires
        is_padding(after),
        s.len() > 0 ==> !is_space(s.last()),
    ensures
        trim_end(s + after) == s,
    decreases after.len(),
{
    if after.len() == 0 {
        assert(s + after =~= s);
    } else {
        assert(is_space(after[after.len() - 1]));
        assert((s + after).drop_last() =~= s + after.drop_last());
        assert(is_padding(after.drop_last())) by {
            assert forall|i: int| 0 <= i < after.drop_last().len() implies is_space(
                #[trigger] after.drop_last()[i],
            ) && after.drop_last()[i] != '\n' by {
                assert(is_space(after[i]));
            }
        }
        trim_end_drops_spaces(s, after.drop_last());
    }
}

/// Trimming takes away the white space around a text and nothing of the text itself, whatever it
/// holds.
pub proof fn trim_leaves_the_text(before: Seq<char>, s: Seq<char>, after: Seq<char>)
    requires
        is_padding(before),
        is_padding(after),
        is_bare(s),
    ensures
        trim(before + s + after) == s,
{
    assert(before + s + after =~= before + (s + after));
    trim_start_drops_spaces(before, s + after);
    if s.len() > 0 {
        assert((s + after).first() == s.first());
        trim_end_drops_spaces(s, after);
    } else {
        assert(s + after =~= after + Seq::<char>::empty());
        trim_start_drops_spaces(after, Seq::empty());
        assert(trim_end(Seq::<char>::empty()) =~= s);
    }
}

/// A line of a secrets file, with white space around the key and the value.
pub open spec fn written_line(
    a: Seq<char>,
    key: Seq<char>,
    b: Seq<char>,
    c: Seq<char>,
    value: Seq<char>,
    d: Seq<char>,
) -> Seq<char> {
    a + key + b + seq!['='] + c + value + d
}

/// What is written is read back: a line that sets a key to a value assigns exactly that value to
/// exactly that key, whatever characters the value holds, and whatever white space stands around
/// the two. The key holds no equals sign and does not begin with a number sign.
pub proof fn written_lines_read_back(
    a: Seq<char>,
    key: Seq<char>,
    b: Seq<char>,
    c: Seq<char>,
    value: Seq<char>,
    d: Seq<char>,
    asked: Seq<char>,
)
    requires
        is_padding(a) && is_padding(b) && is_padding(c) && is_padding(d),
        is_bare(key) && is_bare(value),
        !key.contains('='),
        key.len() > 0 ==> key.first() != '#',
    ensures
        assigned(written_line(a, key, b, c, value, d), key) == Some(value),
        asked != key ==> assigned(written_line(a, key, b, c, value, d), asked) is None,
{
    let line = written_line(a, key, b, c, value, d);
    let head = a + key + b;
    let rest = c + value + d;
    assert(line =~= head + seq!['='] + rest);
    assert forall|i: int| 0 <= i < head.len() implies head[i] != '=' by {
        if i < a.len() {
            assert(is_space(a[i]));
        } else if i < a.len() + key.len() {
            assert(head[i] == key[i - a.len()]);
            assert(key.contains(key[i - a.len()]));
        } else {
            assert(is_space(b[i - a.len() - key.len()]));
        }
    }
    find_is(line, '=', head.len() as int);
    assert(line.take(head.len() as int) =~= head);
    assert(line.skip(head.len() as int + 1) =~= rest);
    trim_leaves_the_text(a, key, b);
    trim_leaves_the_text(c, value, d);
    if key.len() > 0 {
        let bare = key + b + seq!['='] + rest;
        assert(line =~= a + bare);
        trim_start_drops_spaces(a, bare);
        assert(bare.first() == key.first());
    } else {
        let bare = seq!['='] + rest;
        assert forall|i: int| 0 <= i < (a + b).len() implies is_space(#[trigger] (a + b)[i]) by {
            if i < a.len() {
                assert(is_space(a[i]));
            } else {
                assert(is_space(b[i - a.len()]));
            }
        }
        assert(line =~= (a + b) + bare);
        trim_start_drops_spaces(a + b, bare);
        assert(bare.first() == '=');
    }
}

/// A line without an equals sign assigns nothing.
pub proof fn lines_without_equals_sign_assign_nothing(line: Seq<char>, key: Seq<char>)
    requires
        !line.contains('='),
    ensures
        assigned(line, key) is None,
{
    find_in_range(line, '=');
    if find(line, '=') < line.len() {
        assert(line.contains(line[find(line, '=')]));
    }
}

/// A text of one line gives a key the value that the line assigns, and an empty one gives none.
pub proof fn one_line_is_its_assignment(line: Seq<char>, key: Seq<char>)
    requires
        !line.contains('\n'),
    ensures
        value_of(line, key) == assigned(line, key),
        line.len() == 0 ==> value_of(line, key) is None,
{
    find_in_range(line, '\n');
    if find(line, '\n') < line.len() {
        assert(line.contains(line[find(line, '\n')]));
    }
    assert(first_line(line) =~= line);
    assert(value_of(other_lines(line), key) is None);
    if line.len() == 0 {
        assert(find(line, '=') == 0);
    }
}

/// A whole file is read back: a line in the middle of a file decides on its key, whatever stands
/// above it, unless a line below assigns the same key.
pub proof fn written_files_read_back(
    above: Seq<char>,
    key: Seq<char>,
    value: Seq<char>,
    below: Seq<char>,
)
    requires
        is_bare(key) && is_bare(value),
        !key.contains('=') && !key.contains('\n') && !value.contains('\n'),
        key.len() > 0 ==> key.first() != '#',
        value_of(below, key) is None,
    ensures
        value_of(above + seq!['\n'] + key + seq!['='] + value + seq!['\n'] + below, key) == Some(
            value,
        ),
{
    let none = Seq::<char>::empty();
    let line = key + seq!['='] + value;
    let front = above.push('\n') + line;
    assert(written_line(none, key, none, none, value, none) =~= line);
    written_lines_read_back(none, key, none, none, value, none, key);
    assert(!line.contains('\n')) by {
        if line.contains('\n') {
            let i = choose|i: int| 0 <= i < line.len() && line[i] == '\n';
            if i < key.len() {
                assert(key.contains(key[i]));
            } else if i > key.len() {
                assert(value.contains(value[i - key.len() - 1]));
            }
        }
    }
    one_line_is_its_assignment(line, key);
    later_lines_win(above, line, key);
    later_lines_win(front, below, key);
    assert(above + seq!['\n'] + key + seq!['='] + value + seq!['\n'] + below =~= front.push('\n')
        + below);
}

} // verus!
