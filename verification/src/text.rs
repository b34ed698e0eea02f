//! Text helpers shared by the matcher and the renderer: joining, physical lines,
//! file stems, decimal numbers, whitespace and letter case.

use vstd::prelude::*;
use vstd::string::*;

verus! {

/// `String::push` of the standard library: the character is appended to the string,
/// and nothing else about the string changes.
pub assume_specification[ String::push ](s: &mut String, c: char)
    ensures
        final(s)@ == old(s)@.push(c),
;

/// What `str::to_lowercase` makes of a text. The mapping follows the Unicode tables
/// that the standard library carries, so it is named here and not written out.
pub uninterp spec fn lowercased(text: Seq<char>) -> Seq<char>;

/// Calls `str::to_lowercase`. The result is the lowercase form of `text` as the
/// standard library defines it; the contract gives that form the name `lowercased`.
#[verifier::external_body]
pub(crate) fn lowercase(text: &str) -> (out: String)
    ensures
        out@ == lowercased(text@),
{
    text.to_lowercase()
}

/// The parts written one after another, with `sep` between each two neighbours.
pub open spec fn joined(parts: Seq<Seq<char>>, sep: Seq<char>) -> Seq<char>
    decreases parts.len(),
{
    if parts.len() == 0 {
        Seq::empty()
    } else if parts.len() == 1 {
        parts[0]
    } else {
        joined(parts.drop_last(), sep) + sep + parts.last()
    }
}

/// Joins `parts` with `sep` between them.
pub fn join(parts: &Vec<String>, sep: &str) -> (out: String)
    ensures
        out@ == joined(parts.deep_view(), sep@),
{
    let mut out = String::new();
    let mut i: usize = 0;
    while i < parts.len()
        invariant
            i <= parts.len(),
            out@ == joined(parts.deep_view().take(i as int), sep@),
        decreases parts.len() - i,
    {
        if i > 0 {
            out.append(sep);
        }
        out.append(parts[i].as_str());
        i = i + 1;
        proof {
            let done = parts.deep_view().take(i as int);
            assert(done.drop_last() =~= parts.deep_view().take(i - 1));
            assert(done.last() == parts[i - 1]@);
        }
    }
    proof {
        assert(parts.deep_view().take(i as int) =~= parts.deep_view());
    }
    out
}

/// A line without the `'\r'` that may end it.
pub open spec fn without_cr(line: Seq<char>) -> Seq<char> {
    if line.len() > 0 && line.last() == '\r' {
        line.drop_last()
    } else {
        line
    }
}

/// The lines of `text` that a `'\n'` has ended, each without its `'\n'` and without a
/// `'\r'` just before it, and then what follows the last `'\n'`.
pub open spec fn scan_lines(text: Seq<char>) -> (Seq<Seq<char>>, Seq<char>)
    decreases text.len(),
{
    if text.len() == 0 {
        (Seq::empty(), Seq::empty())
    } else {
        let (ended, rest) = scan_lines(text.drop_last());
        if text.last() == '\n' {
            (ended.push(without_cr(rest)), Seq::empty())
        } else {
            (ended, rest.push(text.last()))
        }
    }
}

/// The physical lines of `text`. A line ends at `'\n'` or at `"\r\n"`; the ending is
/// not part of the line. What follows the last `'\n'` is a line of its own unless it
/// is empty, so a final line ending adds no empty line.
pub open spec fn lines_of(text: Seq<char>) -> Seq<Seq<char>> {
    let (ended, rest) = scan_lines(text);
    if rest.len() > 0 {
        ended.push(rest)
    } else {
        ended
    }
}

/// Splits `text` into its physical lines.
pub fn split_lines(text: &str) -> (lines: Vec<String>)
    ensures
        lines.deep_view() == lines_of(text@),
{
    broadcast use group_string_axioms;

    let mut lines: Vec<String> = Vec::new();
    let mut rest = String::new();
    // A '\r' that was read and is not yet in `rest`: the next character decides
    // whether it belongs to the line or to its ending.
    let mut held_cr = false;
    for c in it: text.chars()
        invariant
            it.seq() == text@,
            lines.deep_view() == scan_lines(text@.take(it.index())).0,
            scan_lines(text@.take(it.index())).1 == if held_cr {
                rest@.push('\r')
            } else {
                rest@
            },
            !held_cr ==> rest@.len() == 0 || rest@.last() != '\r',
    {
        proof {
            let read = text@.take(it.index() + 1);
            assert(read.drop_last() =~= text@.take(it.index()));
            assert(read.last() == c);
        }
        let ghost before = lines.deep_view();
        if c == '\n' {
            assert(without_cr(rest@.push('\r')) =~= rest@);
            lines.push(rest);
            assert(lines.deep_view() =~= before.push(rest@));
            rest = String::new();
            held_cr = false;
        } else if c == '\r' {
            if held_cr {
                rest.push('\r');
            }
            held_cr = true;
        } else {
            if held_cr {
                rest.push('\r');
                held_cr = false;
            }
            rest.push(c);
        }
    }
    proof {
        assert(text@.take(text@.len() as int) =~= text@);
    }
    if held_cr {
        rest.push('\r');
    }
    if !rest.as_str().is_empty() {
        let ghost before = lines.deep_view();
        lines.push(rest);
        assert(lines.deep_view() =~= before.push(rest@));
    }
    lines
}

/// The decimal digit for a number below ten.
pub open spec fn digit_char(d: nat) -> char {
    if d == 0 {
        '0'
    } else if d == 1 {
        '1'
    } else if d == 2 {
        '2'
    } else if d == 3 {
        '3'
    } else if d == 4 {
        '4'
    } else if d == 5 {
        '5'
    } else if d == 6 {
        '6'
    } else if d == 7 {
        '7'
    } else if d == 8 {
        '8'
    } else {
        '9'
    }
}

/// A number in decimal, without sign and without leading zeros.
pub open spec fn decimal(n: nat) -> Seq<char>
    decreases n,
{
    if n < 10 {
        seq![digit_char(n)]
    } else {
        decimal(n / 10).push(digit_char(n % 10))
    }
}

fn digit(d: usize) -> (c: char)
    requires
        d < 10,
    ensures
        c == digit_char(d as nat),
{
    match d {
        0 => '0',
        1 => '1',
        2 => '2',
        3 => '3',
        4 => '4',
        5 => '5',
        6 => '6',
        7 => '7',
        8 => '8',
        _ => '9',
    }
}

/// Appends `n` in decimal to `out`.
pub fn push_decimal(out: &mut String, n: usize)
    ensures
        final(out)@ == old(out)@ + decimal(n as nat),
    decreases n,
{
    if n >= 10 {
        push_decimal(out, n / 10);
    }
    out.push(digit(n % 10));
    assert(out@ =~= old(out)@ + decimal(n as nat));
}

/// Whether `c` is white space: a character that Unicode classes as `White_Space`.
pub open spec fn is_space(c: char) -> bool {
    let u = c as u32;
    ||| 0x09 <= u <= 0x0D
    ||| u == 0x20
    ||| u == 0x85
    ||| u == 0xA0
    ||| u == 0x1680
    ||| 0x2000 <= u <= 0x200A
    ||| u == 0x2028
    ||| u == 0x2029
    ||| u == 0x202F
    ||| u == 0x205F
    ||| u == 0x3000
}

/// Tells whether `c` is white space.
pub fn space(c: char) -> (yes: bool)
    ensures
        yes == is_space(c),
{
    let u = c as u32;
    (0x09 <= u && u <= 0x0D) || u == 0x20 || u == 0x85 || u == 0xA0 || u == 0x1680 || (0x2000 <= u
        && u <= 0x200A) || u == 0x2028 || u == 0x2029 || u == 0x202F || u == 0x205F || u == 0x3000
}

/// Whether `line` is a header line: its first character that is not white space is `#`.
pub open spec fn is_header(line: Seq<char>) -> bool {
    exists|i: int|
        0 <= i < line.len() && #[trigger] line[i] == '#' && forall|j: int|
            0 <= j < i ==> is_space(#[trigger] line[j])
}

/// Tells whether `line` is a header line.
pub fn header_line(line: &str) -> (yes: bool)
    ensures
        yes == is_header(line@),
{
    broadcast use group_string_axioms;

    for c in it: line.chars()
        invariant
            it.seq() == line@,
            forall|j: int| 0 <= j < it.index() ==> is_space(#[trigger] line@[j]),
    {
        if !space(c) {
            return c == '#';
        }
    }
    false
}

/// The characters of `text`, one by one.
pub fn to_chars(text: &str) -> (chars: Vec<char>)
    ensures
        chars@ == text@,
{
    broadcast use group_string_axioms;

    let mut chars: Vec<char> = Vec::new();
    for c in it: text.chars()
        invariant
            it.seq() == text@,
            chars@ == text@.take(it.index()),
    {
        chars.push(c);
        assert(text@.take(it.index() + 1) =~= text@.take(it.index()).push(c));
    }
    assert(text@.take(text@.len() as int) =~= text@);
    chars
}

/// The characters of `chars` from `from` up to, not including, `to`, as a string.
pub fn text_between(chars: &Vec<char>, from: usize, to: usize) -> (text: String)
    requires
        from <= to <= chars.len(),
    ensures
        text@ == chars@.subrange(from as int, to as int),
{
    let mut text = String::new();
    let mut i: usize = from;
    while i < to
        invariant
            from <= i <= to <= chars.len(),
            text@ == chars@.subrange(from as int, i as int),
        decreases to - i,
    {
        text.push(chars[i]);
        i = i + 1;
        assert(text@ =~= chars@.subrange(from as int, i as int));
    }
    text
}

/// The place of the last `c` in `s`, or -1 where `s` holds no `c`.
pub open spec fn last_index_of(s: Seq<char>, c: char) -> int
    decreases s.len(),
{
    if s.len() == 0 {
        -1
    } else if s.last() == c {
        s.len() - 1
    } else {
        last_index_of(s.drop_last(), c)
    }
}

/// The last segment of a path: what follows its last `/`.
pub open spec fn last_segment(path: Seq<char>) -> Seq<char> {
    path.skip(last_index_of(path, '/') + 1)
}

/// The file name of a path, read as `std::path::Path::file_name` reads a path whose
/// separator is `/`: the last segment of the path, where a `/` at the end and a
/// segment `.` at the end are passed over. A path that ends in the segment `..` has
/// no file name, and neither has one that consists of nothing but `/` and `.`; the
/// file name is then empty.
pub open spec fn file_name(path: Seq<char>) -> Seq<char>
    decreases path.len(),
{
    if path.len() == 0 {
        Seq::empty()
    } else if path.last() == '/' {
        file_name(path.drop_last())
    } else if last_segment(path) == seq!['.', '.'] {
        Seq::empty()
    } else if last_segment(path) == seq!['.'] {
        file_name(path.drop_last())
    } else {
        last_segment(path)
    }
}

/// The stem of a path, as `std::path::Path::file_stem` gives it for a path whose
/// separator is `/`: the file name without its extension. The extension begins at
/// the last `.` of the file name; a `.` that begins the name begins no extension.
pub open spec fn stem_of(path: Seq<char>) -> Seq<char> {
    let name = file_name(path);
    let dot = last_index_of(name, '.');
    if dot <= 0 {
        name
    } else {
        name.take(dot)
    }
}

/// Where the last segment of the first `end` characters begins.
fn segment_start(chars: &Vec<char>, end: usize) -> (start: usize)
    requires
        end <= chars.len(),
    ensures
        start <= end,
        start == last_index_of(chars@.take(end as int), '/') + 1,
        last_segment(chars@.take(end as int)) == chars@.subrange(start as int, end as int),
{
    let mut start: usize = end;
    while start > 0 && chars[start - 1] != '/'
        invariant
            start <= end <= chars.len(),
            last_index_of(chars@.take(end as int), '/') == last_index_of(
                chars@.take(start as int),
                '/',
            ),
        decreases start,
    {
        assert(chars@.take(start as int).drop_last() =~= chars@.take(start - 1));
        start = start - 1;
    }
    assert(chars@.take(end as int).skip(start as int) =~= chars@.subrange(start as int, end as int));
    start
}

/// Where the file name of a path begins and ends among its characters.
fn name_bounds(chars: &Vec<char>) -> (bounds: (usize, usize))
    ensures
        bounds.0 <= bounds.1 <= chars.len(),
        file_name(chars@) == chars@.subrange(bounds.0 as int, bounds.1 as int),
{
    let n = chars.len();
    assert(chars@.take(n as int) =~= chars@);
    let mut end: usize = n;
    while end > 0
        invariant
            end <= n == chars.len(),
            file_name(chars@) == file_name(chars@.take(end as int)),
        decreases end,
    {
        let ghost read = chars@.take(end as int);
        assert(read.last() == chars@[end - 1]);
        assert(read.drop_last() =~= chars@.take(end - 1));
        if chars[end - 1] == '/' {
            end = end - 1;
        } else {
            let start = segment_start(chars, end);
            let ghost segment = chars@.subrange(start as int, end as int);
            assert(segment == last_segment(read));
            if end - start == 2 && chars[start] == '.' && chars[start + 1] == '.' {
                assert(segment =~= seq!['.', '.']);
                assert(file_name(read) == Seq::<char>::empty());
                assert(chars@.subrange(0, 0) =~= Seq::<char>::empty());
                return (0, 0);
            }
            assert(segment != seq!['.', '.']) by {
                if segment == seq!['.', '.'] {
                    assert(segment.len() == 2 && segment[0] == '.' && segment[1] == '.');
                }
            }
            if end - start == 1 && chars[start] == '.' {
                assert(segment =~= seq!['.']);
                end = end - 1;
            } else {
                assert(segment != seq!['.']) by {
                    if segment == seq!['.'] {
                        assert(segment.len() == 1 && segment[0] == '.');
                    }
                }
                assert(file_name(read) == segment);
                return (start, end);
            }
        }
    }
    assert(chars@.take(0) =~= Seq::<char>::empty());
    assert(chars@.subrange(0, 0) =~= Seq::<char>::empty());
    (0, 0)
}

/// The stem of the file that `path` names.
pub fn file_stem(path: &str) -> (stem: String)
    ensures
        stem@ == stem_of(path@),
{
    let chars = to_chars(path);
    let (start, end) = name_bounds(&chars);
    let ghost name = chars@.subrange(start as int, end as int);
    let len = end - start;
    // One more than the place of the last '.' in the name, counted from `start`.
    let mut after_dot: usize = 0;
    let mut j: usize = 0;
    while j < len
        invariant
            start + len == end <= chars.len(),
            after_dot <= j <= len,
            name == chars@.subrange(start as int, end as int),
            after_dot == last_index_of(name.take(j as int), '.') + 1,
        decreases len - j,
    {
        if chars[start + j] == '.' {
            after_dot = j + 1;
        }
        j = j + 1;
        assert(name.take(j as int).drop_last() =~= name.take(j - 1));
    }
    assert(name.take(len as int) =~= name);
    let stop = if after_dot <= 1 {
        end
    } else {
        start + after_dot - 1
    };
    let stem = text_between(&chars, start, stop);
    assert(stem@ =~= stem_of(path@));
    stem
}

} // verus!
