use vstd::prelude::*;

verus! {

/// Failure to read or write an image file.
#[derive(Debug, PartialEq, Eq, PartialOrd, Ord)]
pub enum Error {
    FormatError(String),
    IoError(String),
}

/// The text shown for an image-file error.
pub open spec fn error_message(e: Error) -> Seq<char> {
    match e {
        Error::FormatError(m) => "Invalid format: "@ + m@,
        Error::IoError(m) => "IO error: "@ + m@,
    }
}

impl Error {
    /// The text shown for this error.
    pub fn message(&self) -> (r: String)
        ensures
            r@ == error_message(*self),
    {
        match self {
            Error::FormatError(m) => {
                let mut r = String::from_str("Invalid format: ");
                r.append(m.as_str());
                r
            },
            Error::IoError(m) => {
                let mut r = String::from_str("IO error: ");
                r.append(m.as_str());
                r
            },
        }
    }
}

/// Index of the last `.` of `s`, or -1.
pub open spec fn last_dot(s: Seq<char>) -> int
    decreases s.len(),
{
    if s.len() == 0 {
        -1
    } else if s.last() == '.' {
        s.len() - 1
    } else {
        last_dot(s.drop_last())
    }
}

/// Length of the stem of file name `name`: the part before its last `.`,
/// unless that dot is its first character or the name is `..`.
pub open spec fn stem_len(name: Seq<char>) -> int {
    if name == ".."@ || last_dot(name) <= 0 {
        name.len() as int
    } else {
        last_dot(name)
    }
}

/// A file name's extension: what follows the dot that ends its stem.
pub open spec fn extension(name: Seq<char>) -> Option<Seq<char>> {
    if stem_len(name) == name.len() {
        None
    } else {
        Some(name.subrange(stem_len(name) + 1, name.len() as int))
    }
}

/// Length of the part of `s` before its first component: a leading `/`,
/// or a leading `.` that stands alone or before a `/`.
pub open spec fn body_start(s: Seq<char>) -> int {
    if s.len() > 0 && s[0] == '/' {
        1
    } else if s.len() > 0 && s[0] == '.' && (s.len() == 1 || s[1] == '/') {
        1
    } else {
        0
    }
}

/// Start of the last segment of `s[..n]`: just past its last `/` at or after
/// `b`, else `b`.
pub open spec fn segment_start(s: Seq<char>, b: int, n: int) -> int
    decreases n - b,
{
    if n <= b {
        b
    } else if s[n - 1] == '/' {
        n
    } else {
        segment_start(s, b, n - 1)
    }
}

/// Length of `s[..n]` once trailing empty and `.` segments after `b` are
/// dropped together with the `/` before each.
pub open spec fn trimmed_len(s: Seq<char>, b: int, n: int) -> int
    decreases n,
{
    if n <= b || b < 0 {
        n
    } else {
        let k = segment_start(s, b, n);
        let seg = s.subrange(k, n);
        if seg.len() == 0 || seg == "."@ {
            trimmed_len(
                s,
                b,
                if k > b && k <= n {
                    k - 1
                } else {
                    b
                },
            )
        } else {
            n
        }
    }
}

/// Where the file name of path `s` lies, with the length of the path before
/// it, as `(start, end, parent)`. The file name is the last component once
/// trailing empty and `.` segments are dropped; the parent is what precedes
/// it, trimmed the same way. None when that last component is not a name:
/// the path is empty, a root, `.`, or ends in `..`.
pub open spec fn file_name_range(s: Seq<char>) -> Option<(int, int, int)> {
    let b = body_start(s);
    let end = trimmed_len(s, b, s.len() as int);
    if end <= b {
        None
    } else {
        let start = segment_start(s, b, end);
        if s.subrange(start, end) == ".."@ {
            None
        } else {
            Some(
                (
                    start,
                    end,
                    trimmed_len(
                        s,
                        b,
                        if start > b {
                            start - 1
                        } else {
                            b
                        },
                    ),
                ),
            )
        }
    }
}

/// The first `parent` characters of path `s` followed by file name `name`,
/// with a `/` between them unless they are empty or already end in one.
pub open spec fn replace_name(s: Seq<char>, parent: int, name: Seq<char>) -> Seq<char> {
    let dir = s.subrange(0, parent);
    if parent > 0 && s[parent - 1] != '/' {
        dir + "/"@ + name
    } else {
        dir + name
    }
}

/// `path` with `suffix` appended to the stem of its file name. When the file
/// name has an extension, the stem of the new path's file name is then given
/// that extension back (an empty extension leaves no dot).
pub open spec fn with_suffix(path: Seq<char>, suffix: Seq<char>) -> Seq<char> {
    match file_name_range(path) {
        None => path,
        Some((start, end, parent)) => {
            let name = path.subrange(start, end);
            let renamed = replace_name(path, parent, name.subrange(0, stem_len(name)) + suffix);
            match extension(name) {
                None => renamed,
                Some(ext) => match file_name_range(renamed) {
                    None => renamed,
                    Some((start2, end2, _)) => renamed.subrange(
                        0,
                        start2 + stem_len(renamed.subrange(start2, end2)),
                    ) + if ext.len() == 0 {
                        Seq::<char>::empty()
                    } else {
                        "."@ + ext
                    },
                },
            }
        },
    }
}

/// Length of the part of `s` before its first component.
fn find_body_start(s: &str) -> (r: usize)
    ensures
        r == body_start(s@),
        r <= s@.len(),
{
    let n = s.unicode_len();
    if n > 0 {
        let c = s.get_char(0);
        if c == '/' {
            return 1;
        }
        if c == '.' && (n == 1 || s.get_char(1) == '/') {
            return 1;
        }
    }
    0
}

/// Start of the last segment of `s[..n]` at or after `b`.
fn find_segment_start(s: &str, b: usize, n: usize) -> (r: usize)
    requires
        b <= n <= s@.len(),
    ensures
        r == segment_start(s@, b as int, n as int),
        b <= r <= n,
{
    let mut m: usize = n;
    while m > b
        invariant
            b <= m <= n <= s@.len(),
            segment_start(s@, b as int, n as int) == segment_start(s@, b as int, m as int),
        decreases m,
    {
        if s.get_char(m - 1) == '/' {
            return m;
        }
        m = m - 1;
    }
    b
}

/// Length of `s[..n]` without its trailing empty and `.` segments.
fn find_trimmed_len(s: &str, b: usize, n: usize) -> (r: usize)
    requires
        b <= n <= s@.len(),
    ensures
        r == trimmed_len(s@, b as int, n as int),
        b <= r <= n,
    decreases n,
{
    if n <= b {
        return n;
    }
    let k = find_segment_start(s, b, n);
    proof {
        reveal_strlit(".");
    }
    let is_dot = n - k == 1 && s.get_char(k) == '.';
    if n == k || is_dot {
        proof {
            if is_dot {
                assert(s@.subrange(k as int, n as int) =~= "."@);
            }
        }
        let m = if k > b {
            k - 1
        } else {
            b
        };
        find_trimmed_len(s, b, m)
    } else {
        assert(s@.subrange(k as int, n as int) != "."@) by {
            reveal_strlit(".");
            assert("."@.len() == 1);
            assert(s@.subrange(k as int, n as int).len() == n - k);
            if s@.subrange(k as int, n as int) == "."@ {
                assert(n - k == 1);
                assert(s@.subrange(k as int, n as int)[0] == '.');
                assert(s@[k as int] == '.');
            }
        }
        n
    }
}

/// Where the file name of path `s` lies, with the length of its parent.
fn find_file_name(s: &str) -> (r: Option<(usize, usize, usize)>)
    ensures
        match r {
            Some((start, end, parent)) => file_name_range(s@) == Some(
                (start as int, end as int, parent as int),
            ) && parent <= start <= end <= s@.len(),
            None => file_name_range(s@) is None,
        },
{
    let b = find_body_start(s);
    let end = find_trimmed_len(s, b, s.unicode_len());
    if end <= b {
        return None;
    }
    let start = find_segment_start(s, b, end);
    proof {
        reveal_strlit("..");
    }
    if end - start == 2 && s.get_char(start) == '.' && s.get_char(start + 1) == '.' {
        assert(s@.subrange(start as int, end as int) =~= ".."@);
        return None;
    }
    assert(s@.subrange(start as int, end as int) != ".."@) by {
        reveal_strlit("..");
        assert(".."@.len() == 2);
        assert(s@.subrange(start as int, end as int).len() == end - start);
        if s@.subrange(start as int, end as int) == ".."@ {
            assert(s@.subrange(start as int, end as int)[0] == '.');
            assert(s@.subrange(start as int, end as int)[1] == '.');
        }
    }
    let before = if start > b {
        start - 1
    } else {
        b
    };
    let parent = find_trimmed_len(s, b, before);
    Some((start, end, parent))
}

/// Whether path `s` has a file name that `add_suffix` can extend.
pub fn has_file_name(s: &str) -> (r: bool)
    ensures
        r == file_name_range(s@) is Some,
{
    find_file_name(s).is_some()
}

/// The first `parent` characters of `s` followed by `name`, with a `/`
/// between them where needed.
fn replaced_name(s: &str, parent: usize, name: &str) -> (r: String)
    requires
        parent <= s@.len(),
    ensures
        r@ == replace_name(s@, parent as int, name@),
{
    let mut r = String::from_str(s.substring_char(0, parent));
    if parent > 0 && s.get_char(parent - 1) != '/' {
        r.append("/");
    }
    r.append(name);
    r
}

/// Length of the stem of file name `name`.
fn find_stem_len(name: &str) -> (r: usize)
    ensures
        r == stem_len(name@),
        r <= name@.len(),
{
    let n = name.unicode_len();
    proof {
        reveal_strlit("..");
    }
    if n == 2 && name.get_char(0) == '.' && name.get_char(1) == '.' {
        assert(name@ =~= ".."@);
        return n;
    }
    assert(name@ != ".."@) by {
        if name@ == ".."@ {
            assert(name@[0] == '.' && name@[1] == '.');
        }
    }
    let mut i: usize = n;
    proof {
        assert(name@.subrange(0, i as int) =~= name@);
    }
    while i > 0
        invariant
            i <= name@.len(),
            n == name@.len(),
            name@ != ".."@,
            last_dot(name@) == last_dot(name@.subrange(0, i as int)),
        decreases i,
    {
        if name.get_char(i - 1) == '.' {
            assert(name@.subrange(0, i as int).last() == '.');
            assert(last_dot(name@) == i - 1);
            if i - 1 == 0 {
                return n;
            }
            return i - 1;
        }
        proof {
            assert(name@.subrange(0, i as int).drop_last() =~= name@.subrange(0, i - 1));
        }
        i = i - 1;
    }
    n
}

/// Appends `suffix` to the stem of the file name of `path`, keeping its
/// extension: `dir/file.txt` with `_x` gives `dir/file_x.txt`.
pub fn add_suffix(path: &str, suffix: &str) -> (r: String)
    requires
        file_name_range(path@) is Some,
    ensures
        r@ == with_suffix(path@, suffix@),
{
    let (start, end, parent) = match find_file_name(path) {
        Some(range) => range,
        None => return String::from_str(path),
    };
    let name = path.substring_char(start, end);
    let stem = find_stem_len(name);
    let name_len = name.unicode_len();
    let mut new_name = String::from_str(name.substring_char(0, stem));
    new_name.append(suffix);
    let renamed = replaced_name(path, parent, new_name.as_str());
    if stem == name_len {
        return renamed;
    }
    match find_file_name(renamed.as_str()) {
        None => renamed,
        Some((start2, end2, _)) => {
            let name2 = renamed.as_str().substring_char(start2, end2);
            let stem2 = find_stem_len(name2);
            let mut r = String::from_str(renamed.as_str().substring_char(0, start2 + stem2));
            if stem + 1 < name_len {
                r.append(".");
                r.append(name.substring_char(stem + 1, name_len));
            }
            proof {
                let ext = name@.subrange(stem + 1, name@.len() as int);
                if stem + 1 >= name_len {
                    assert(ext.len() == 0);
                }
            }
            r
        },
    }
}

/// Whether every character of `s` is an ASCII digit.
pub open spec fn all_digits(s: Seq<char>) -> bool {
    forall|i: int| 0 <= i < s.len() ==> '0' <= #[trigger] s[i] <= '9'
}

/// Value of the ASCII decimal digits `s`.
pub open spec fn digits_value(s: Seq<char>) -> int
    decreases s.len(),
{
    if s.len() == 0 {
        0
    } else {
        digits_value(s.drop_last()) * 10 + (s.last() as u32 - '0' as u32)
    }
}

/// A 32-bit integer written in decimal: an optional `+` or `-`, then at
/// least one ASCII digit, the value in range.
pub open spec fn decimal_i32(s: Seq<char>) -> Option<i32> {
    let negative = s.len() > 0 && s[0] == '-';
    let body = if s.len() > 0 && (s[0] == '-' || s[0] == '+') {
        s.drop_first()
    } else {
        s
    };
    let value = if negative {
        -digits_value(body)
    } else {
        digits_value(body)
    };
    if body.len() > 0 && all_digits(body) && i32::MIN <= value <= i32::MAX {
        Some(value as i32)
    } else {
        None
    }
}

/// A longer run of digits is worth at least as much as its prefix.
proof fn lemma_digits_value_grows(s: Seq<char>, k: int)
    requires
        0 <= k <= s.len(),
        all_digits(s),
    ensures
        digits_value(s) >= digits_value(s.subrange(0, k)),
        digits_value(s.subrange(0, k)) >= 0,
    decreases s.len(),
{
    if s.len() > 0 {
        assert(all_digits(s.drop_last()));
        if k == s.len() {
            assert(s.subrange(0, k) =~= s);
            lemma_digits_value_grows(s.drop_last(), k - 1);
            assert(s.drop_last().subrange(0, k - 1) =~= s.drop_last());
        } else {
            lemma_digits_value_grows(s.drop_last(), k);
            assert(s.drop_last().subrange(0, k) =~= s.subrange(0, k));
        }
    } else {
        assert(s.subrange(0, k) =~= s);
    }
}

/// Parses a decimal 32-bit integer: an optional sign and ASCII digits.
pub fn parse_i32(s: &str) -> (r: Option<i32>)
    ensures
        r == decimal_i32(s@),
{
    let n = s.unicode_len();
    let mut i: usize = 0;
    let mut negative = false;
    if n > 0 {
        let c = s.get_char(0);
        if c == '-' || c == '+' {
            negative = c == '-';
            i = 1;
        }
    }
    let ghost body = if s@.len() > 0 && (s@[0] == '-' || s@[0] == '+') {
        s@.drop_first()
    } else {
        s@
    };
    let ghost first = i as int;
    proof {
        assert(body =~= s@.subrange(first, n as int));
    }
    if i == n {
        return None;
    }
    // The magnitude read so far; past 2^31 no value is in range.
    let mut acc: u64 = 0;
    while i < n
        invariant
            0 <= first <= 1,
            first <= i <= n,
            n == s@.len(),
            body =~= s@.subrange(first, n as int),
            body == (if s@.len() > 0 && (s@[0] == '-' || s@[0] == '+') {
                s@.drop_first()
            } else {
                s@
            }),
            negative == (s@.len() > 0 && s@[0] == '-'),
            all_digits(s@.subrange(first, i as int)),
            acc == digits_value(s@.subrange(first, i as int)),
            acc <= 2147483648,
        decreases n - i,
    {
        let c = s.get_char(i);
        if c < '0' || c > '9' {
            proof {
                assert(body[i - first] == c);
                assert(!all_digits(body));
            }
            return None;
        }
        let d = (c as u32 - '0' as u32) as u64;
        proof {
            assert(s@.subrange(first, i + 1).drop_last() =~= s@.subrange(first, i as int));
            assert(all_digits(s@.subrange(first, i + 1)));
        }
        let next = acc * 10 + d;
        if next > 2147483648 {
            proof {
                let rest = s@.subrange(first, n as int);
                if all_digits(rest) {
                    lemma_digits_value_grows(rest, i + 1 - first);
                    assert(rest.subrange(0, i + 1 - first) =~= s@.subrange(first, i + 1));
                }
            }
            return None;
        }
        acc = next;
        i = i + 1;
    }
    proof {
        assert(s@.subrange(first, n as int) =~= body);
    }
    if negative {
        Some((0 - acc as i64) as i32)
    } else if acc > 2147483647 {
        None
    } else {
        Some(acc as i32)
    }
}

/// The text of group 1 of the leftmost match of regular expression
/// `pattern` in `haystack`; none when there is no match, when the group did
/// not take part in it, or when `pattern` is not a valid expression.
pub uninterp spec fn first_capture(pattern: Seq<char>, haystack: Seq<char>) -> Option<Seq<char>>;

/// Relies on `regex::Regex::new` to compile `pattern` and on
/// `Regex::captures_iter` to yield the leftmost match of it in `haystack`
/// first; returns the text of that match's group 1.
#[verifier::external_body]
fn capture_first(pattern: &str, haystack: &str) -> (r: Option<String>)
    ensures
        match r {
            Some(c) => first_capture(pattern@, haystack@) == Some(c@),
            None => first_capture(pattern@, haystack@) is None,
        },
{
    let re = regex::Regex::new(pattern).ok()?;
    let caps = re.captures_iter(haystack).next()?;
    caps.get(1).map(|m| m.as_str().to_string())
}

/// The tag that marks how many samples an image file holds: `_<digits>spp`.
pub const SAMPLE_TAG: &'static str = "_(\\d+)spp";

/// The sample count written by a sample tag whose digits are `capture`.
pub open spec fn sample_of(capture: Option<Seq<char>>) -> Option<i32> {
    match capture {
        Some(digits) => decimal_i32(digits),
        None => None,
    }
}

/// The sample count given the digits of a file name's sample tag, if it has
/// one.
pub fn sample_from_capture(capture: Option<&str>) -> (r: Option<i32>)
    ensures
        r == sample_of(
            match capture {
                Some(c) => Some(c@),
                None => None,
            },
        ),
{
    match capture {
        Some(c) => parse_i32(c),
        None => None,
    }
}

/// The sample count in a file name such as `output_12spp.pfm`: the digits of
/// its first sample tag, when they make a 32-bit integer.
pub fn parse_sample(s: &str) -> (r: Option<i32>)
    ensures
        r == sample_of(first_capture(SAMPLE_TAG@, s@)),
{
    let capture = capture_first(SAMPLE_TAG, s);
    match capture {
        Some(c) => sample_from_capture(Some(c.as_str())),
        None => sample_from_capture(None),
    }
}

/// Characters with the Unicode `White_Space` property.
pub open spec fn is_white_space(c: char) -> bool {
    let u = c as u32;
    ||| 0x9 <= u <= 0xD
    ||| u == 0x20
    ||| u == 0x85
    ||| u == 0xA0
    ||| u == 0x1680
    ||| 0x2000 <= u <= 0x200A
    ||| u == 0x2028
    ||| u == 0x2029
    ||| u == 0x202F
    ||| u == 0x205F
    ||| u == 0x3000
}

/// Number of white-space characters that `s` starts with.
pub open spec fn leading_white_space(s: Seq<char>) -> int
    decreases s.len(),
{
    if s.len() == 0 {
        0
    } else if is_white_space(s[0]) {
        1 + leading_white_space(s.drop_first())
    } else {
        0
    }
}

/// Length of `s` without the white-space characters it ends with.
pub open spec fn without_trailing_white_space(s: Seq<char>) -> int
    decreases s.len(),
{
    if s.len() == 0 {
        0
    } else if is_white_space(s.last()) {
        without_trailing_white_space(s.drop_last())
    } else {
        s.len() as int
    }
}

/// `s` without its leading and trailing white space.
pub open spec fn trim_of(s: Seq<char>) -> Seq<char> {
    let start = leading_white_space(s);
    if start >= s.len() {
        Seq::<char>::empty()
    } else {
        s.subrange(start, without_trailing_white_space(s))
    }
}

/// Relies on `str::trim`: removes the leading and trailing characters that
/// have the Unicode `White_Space` property.
#[verifier::external_body]
fn trimmed(s: &str) -> (r: &str)
    ensures
        r@ == trim_of(s@),
{
    s.trim()
}

/// The pieces of `s` between separators `sep`, as `str::split` yields them:
/// one more piece than there are separators, empty pieces included.
pub open spec fn split_on(s: Seq<char>, sep: char) -> Seq<Seq<char>>
    decreases s.len(),
{
    if s.len() == 0 {
        seq![Seq::<char>::empty()]
    } else {
        let prev = split_on(s.drop_last(), sep);
        if s.last() == sep {
            prev.push(Seq::<char>::empty())
        } else {
            prev.update(prev.len() - 1, prev.last().push(s.last()))
        }
    }
}

/// The values of the pieces that are decimal 32-bit integers, in order.
pub open spec fn parsed_values(pieces: Seq<Seq<char>>) -> Seq<i32>
    decreases pieces.len(),
{
    if pieces.len() == 0 {
        Seq::<i32>::empty()
    } else {
        let prev = parsed_values(pieces.drop_last());
        match decimal_i32(pieces.last()) {
            Some(v) => prev.push(v),
            None => prev,
        }
    }
}

/// Width and height written on the second line of a PFM file: the line is
/// trimmed and split at spaces, pieces that are not integers are skipped,
/// and exactly two must remain.
pub open spec fn pfm_dimensions_of(line: Seq<char>) -> Option<(i32, i32)> {
    let values = parsed_values(split_on(trim_of(line), ' '));
    if values.len() == 2 {
        Some((values[0], values[1]))
    } else {
        None
    }
}

/// The values of the space-separated integers of `t`, skipping other pieces.
fn space_separated_values(t: &str) -> (r: Vec<i32>)
    ensures
        r@ == parsed_values(split_on(t@, ' ')),
{
    let n = t.unicode_len();
    let mut values: Vec<i32> = Vec::new();
    let mut start: usize = 0;
    let mut i: usize = 0;
    proof {
        assert(t@.subrange(0, 0) =~= Seq::<char>::empty());
        assert(split_on(t@.subrange(0, 0), ' ').drop_last() =~= Seq::<Seq<char>>::empty());
    }
    while i < n
        invariant
            n == t@.len(),
            start <= i <= n,
            split_on(t@.subrange(0, i as int), ' ').len() >= 1,
            split_on(t@.subrange(0, i as int), ' ').last() == t@.subrange(start as int, i as int),
            values@ == parsed_values(split_on(t@.subrange(0, i as int), ' ').drop_last()),
        decreases n - i,
    {
        let ghost before = split_on(t@.subrange(0, i as int), ' ');
        let c = t.get_char(i);
        proof {
            assert(t@.subrange(0, i + 1).drop_last() =~= t@.subrange(0, i as int));
            assert(t@.subrange(0, i + 1).last() == c);
        }
        if c == ' ' {
            let piece = t.substring_char(start, i);
            let parsed = parse_i32(piece);
            match parsed {
                Some(v) => values.push(v),
                None => {},
            }
            proof {
                let after = split_on(t@.subrange(0, i + 1), ' ');
                assert(after == before.push(Seq::<char>::empty()));
                assert(after.drop_last() =~= before);
                assert(t@.subrange(i + 1, i + 1) =~= Seq::<char>::empty());
            }
            start = i + 1;
        } else {
            proof {
                let after = split_on(t@.subrange(0, i + 1), ' ');
                assert(after == before.update(before.len() - 1, before.last().push(c)));
                assert(after.drop_last() =~= before.drop_last());
                assert(t@.subrange(start as int, i + 1) =~= t@.subrange(start as int, i as int).push(c));
            }
        }
        i = i + 1;
    }
    let piece = t.substring_char(start, n);
    let parsed = parse_i32(piece);
    proof {
        assert(t@.subrange(0, n as int) =~= t@);
    }
    match parsed {
        Some(v) => values.push(v),
        None => {},
    }
    values
}

/// Width and height from the second line of a PFM file.
pub fn pfm_dimensions(line: &str) -> (r: Option<(i32, i32)>)
    ensures
        r == pfm_dimensions_of(line@),
{
    let values = space_separated_values(trimmed(line));
    if values.len() == 2 {
        Some((values[0], values[1]))
    } else {
        None
    }
}

} // verus!
