//! Lines of text as sequences of characters: white space, trimming, searching
//! and joining.

use vstd::prelude::*;

verus! {

/// Whether `c` is white space: one of the code points that carry the Unicode
/// property `White_Space`.
pub open spec fn is_whitespace_spec(c: char) -> bool {
    let n = c as u32;
    ||| 0x09 <= n <= 0x0D
    ||| n == 0x20
    ||| n == 0x85
    ||| n == 0xA0
    ||| n == 0x1680
    ||| 0x2000 <= n <= 0x200A
    ||| n == 0x2028
    ||| n == 0x2029
    ||| n == 0x202F
    ||| n == 0x205F
    ||| n == 0x3000
}

/// Whether `c` is white space.
#[verifier::when_used_as_spec(is_whitespace_spec)]
pub fn is_whitespace(c: char) -> (res: bool)
    ensures
        res == is_whitespace_spec(c),
{
    let n: u32 = c as u32;
    (0x09 <= n && n <= 0x0D) || n == 0x20 || n == 0x85 || n == 0xA0 || n == 0x1680 || (0x2000 <= n
        && n <= 0x200A) || n == 0x2028 || n == 0x2029 || n == 0x202F || n == 0x205F || n == 0x3000
}

/// `s` without the white space at its two ends.
pub open spec fn trimmed(s: Seq<char>) -> Seq<char>
    decreases s.len(),
{
    if s.len() == 0 {
        s
    } else if is_whitespace_spec(s.first()) {
        trimmed(s.drop_first())
    } else if is_whitespace_spec(s.last()) {
        trimmed(s.drop_last())
    } else {
        s
    }
}

/// Whether `s[from..to]` is what trimming leaves of `s`: all that lies outside
/// is white space, and what lies inside neither starts nor ends with any.
pub open spec fn is_trim_of(s: Seq<char>, from: int, to: int) -> bool {
    &&& 0 <= from <= to <= s.len()
    &&& forall|i: int| 0 <= i < from ==> is_whitespace_spec(#[trigger] s[i])
    &&& forall|i: int| to <= i < s.len() ==> is_whitespace_spec(#[trigger] s[i])
    &&& from < to ==> !is_whitespace_spec(s[from]) && !is_whitespace_spec(s[to - 1])
}

/// The margins of `s` determine what trimming leaves of it.
pub proof fn lemma_trimmed_is_subrange(s: Seq<char>, from: int, to: int)
    requires
        is_trim_of(s, from, to),
    ensures
        trimmed(s) == s.subrange(from, to),
    decreases s.len(),
{
    if s.len() == 0 {
        assert(s.subrange(from, to) =~= s);
    } else if is_whitespace_spec(s.first()) {
        let rest = s.drop_first();
        assert(forall|i: int| 0 <= i < rest.len() ==> rest[i] == s[i + 1]);
        if from > 0 {
            lemma_trimmed_is_subrange(rest, from - 1, to - 1);
            assert(rest.subrange(from - 1, to - 1) =~= s.subrange(from, to));
        } else {
            assert(to == 0);
            lemma_trimmed_is_subrange(rest, 0, 0);
            assert(rest.subrange(0, 0) =~= s.subrange(0, 0));
        }
    } else if is_whitespace_spec(s.last()) {
        let rest = s.drop_last();
        assert(from == 0) by {
            if from > 0 {
                assert(is_whitespace_spec(s[0]));
            }
        }
        assert(to < s.len());
        lemma_trimmed_is_subrange(rest, from, to);
        assert(rest.subrange(from, to) =~= s.subrange(from, to));
    } else {
        assert(from == 0) by {
            if from > 0 {
                assert(is_whitespace_spec(s[0]));
            }
        }
        assert(to == s.len()) by {
            if to < s.len() {
                assert(is_whitespace_spec(s[s.len() - 1]));
            }
        }
        assert(s.subrange(from, to) =~= s);
    }
}

/// What trimming leaves is a stretch of `s` that has all the white space at the
/// ends of `s` outside it and none at its own ends; trimming it again changes
/// nothing.
pub proof fn lemma_trimmed_has_no_margin(s: Seq<char>)
    ensures
        exists|from: int, to: int| is_trim_of(s, from, to) && trimmed(s) == s.subrange(from, to),
        trimmed(s).len() > 0 ==> !is_whitespace_spec(trimmed(s).first()) && !is_whitespace_spec(
            trimmed(s).last(),
        ),
        trimmed(trimmed(s)) == trimmed(s),
    decreases s.len(),
{
    if s.len() == 0 {
        assert(is_trim_of(s, 0, 0));
        assert(s.subrange(0, 0) =~= s);
    } else if is_whitespace_spec(s.first()) {
        let rest = s.drop_first();
        lemma_trimmed_has_no_margin(rest);
        let (from, to) = choose|from: int, to: int|
            is_trim_of(rest, from, to) && trimmed(rest) == rest.subrange(from, to);
        assert(forall|i: int| 0 <= i < rest.len() ==> rest[i] == s[i + 1]);
        assert forall|i: int| 0 <= i < from + 1 implies is_whitespace_spec(#[trigger] s[i]) by {
            if i > 0 {
                assert(is_whitespace_spec(rest[i - 1]));
            }
        }
        assert forall|i: int| to + 1 <= i < s.len() implies is_whitespace_spec(#[trigger] s[i]) by {
            assert(is_whitespace_spec(rest[i - 1]));
        }
        assert(is_trim_of(s, from + 1, to + 1));
        assert(rest.subrange(from, to) =~= s.subrange(from + 1, to + 1));
    } else if is_whitespace_spec(s.last()) {
        let rest = s.drop_last();
        lemma_trimmed_has_no_margin(rest);
        let (from, to) = choose|from: int, to: int|
            is_trim_of(rest, from, to) && trimmed(rest) == rest.subrange(from, to);
        assert(forall|i: int| 0 <= i < rest.len() ==> rest[i] == s[i]);
        assert forall|i: int| 0 <= i < from implies is_whitespace_spec(#[trigger] s[i]) by {
            assert(is_whitespace_spec(rest[i]));
        }
        assert forall|i: int| to <= i < s.len() implies is_whitespace_spec(#[trigger] s[i]) by {
            if i < rest.len() {
                assert(is_whitespace_spec(rest[i]));
            }
        }
        assert(is_trim_of(s, from, to));
        assert(rest.subrange(from, to) =~= s.subrange(from, to));
    } else {
        assert(is_trim_of(s, 0, s.len() as int));
        assert(s.subrange(0, s.len() as int) =~= s);
    }
}

/// What one reading of a stream of lines gave: the line as a sequence of
/// characters, or the failure to read one.
pub open spec fn item_view(item: Result<String, std::io::Error>) -> Result<
    Seq<char>,
    std::io::Error,
> {
    match item {
        Ok(line) => Ok(line@),
        Err(error) => Err(error),
    }
}

/// The characters of `s`, in order.
pub fn chars_of(s: &str) -> (chars: Vec<char>)
    ensures
        chars@ == s@,
{
    let mut chars: Vec<char> = Vec::new();
    for c in it: s.chars()
        invariant
            it.seq() == s@,
            chars@ == s@.take(it.index() as int),
    {
        chars.push(c);
    }
    chars
}

/// Where trimming cuts `chars`: the result's two numbers are the bounds of what
/// is left.
pub fn trim_bounds(chars: &Vec<char>) -> (bounds: (usize, usize))
    ensures
        is_trim_of(chars@, bounds.0 as int, bounds.1 as int),
        chars@.subrange(bounds.0 as int, bounds.1 as int) == trimmed(chars@),
{
    let mut from: usize = 0;
    while from < chars.len() && is_whitespace(chars[from])
        invariant
            from <= chars.len(),
            forall|i: int| 0 <= i < from ==> is_whitespace_spec(#[trigger] chars@[i]),
        decreases chars.len() - from,
    {
        from += 1;
    }
    let mut to: usize = chars.len();
    while from < to && is_whitespace(chars[to - 1])
        invariant
            from <= to <= chars.len(),
            forall|i: int| to <= i < chars.len() ==> is_whitespace_spec(#[trigger] chars@[i]),
        decreases to,
    {
        to -= 1;
    }
    proof {
        lemma_trimmed_is_subrange(chars@, from as int, to as int);
    }
    (from, to)
}

/// `s` without the white space at its two ends, as a string of its own.
pub fn trim(s: &str) -> (res: String)
    ensures
        res@ == trimmed(s@),
{
    let chars = chars_of(s);
    let (from, to) = trim_bounds(&chars);
    String::from_str(s.substring_char(from, to))
}

/// Whether `chars` begins with the characters of `prefix`.
pub fn starts_with(chars: &Vec<char>, prefix: &str) -> (res: bool)
    ensures
        res == prefix@.is_prefix_of(chars@),
{
    let head = chars_of(prefix);
    if head.len() > chars.len() {
        return false;
    }
    let mut i: usize = 0;
    while i < head.len()
        invariant
            i <= head.len() <= chars.len(),
            head@ == prefix@,
            forall|j: int| 0 <= j < i ==> head@[j] == chars@[j],
        decreases head.len() - i,
    {
        if head[i] != chars[i] {
            assert(prefix@[i as int] != chars@.subrange(0, prefix@.len() as int)[i as int]);
            return false;
        }
        i += 1;
    }
    assert(prefix@ =~= chars@.subrange(0, prefix@.len() as int));
    true
}

/// The place of the first `needle` in `chars`, if there is one.
pub fn find(chars: &Vec<char>, needle: char) -> (place: Option<usize>)
    ensures
        match place {
            Some(i) => chars@.index_of_first(needle) == Some(i as int),
            None => chars@.index_of_first(needle) is None,
        },
{
    let mut i: usize = 0;
    while i < chars.len()
        invariant
            i <= chars.len(),
            forall|j: int| 0 <= j < i ==> chars@[j] != needle,
        decreases chars.len() - i,
    {
        if chars[i] == needle {
            proof {
                assert(chars@.contains(needle));
                chars@.index_of_first_ensures(needle);
            }
            return Some(i);
        }
        i += 1;
    }
    proof {
        chars@.index_of_first_ensures(needle);
    }
    None
}

/// The lines of `lines` in one text, a line feed between each two of them.
pub open spec fn joined(lines: Seq<Seq<char>>) -> Seq<char>
    decreases lines.len(),
{
    if lines.len() == 0 {
        Seq::empty()
    } else if lines.len() == 1 {
        lines[0]
    } else {
        joined(lines.drop_last()) + seq!['\n'] + lines.last()
    }
}

/// The lines of `lines` in one text, a line feed between each two of them.
pub fn join_lines(lines: &Vec<String>) -> (text: String)
    ensures
        text@ == joined(lines.deep_view()),
{
    let mut text = String::new();
    let mut i: usize = 0;
    while i < lines.len()
        invariant
            i <= lines.len(),
            text@ == joined(lines.deep_view().take(i as int)),
        decreases lines.len() - i,
    {
        proof {
            reveal_strlit("\n");
            let before = lines.deep_view().take(i as int);
            let after = lines.deep_view().take(i + 1);
            assert(after.drop_last() =~= before);
            assert(after.last() == lines@[i as int]@);
            assert(seq!['\n'] =~= "\n"@);
        }
        if i > 0 {
            text.append("\n");
        }
        text.append(lines[i].as_str());
        i += 1;
    }
    assert(lines.deep_view().take(i as int) =~= lines.deep_view());
    text
}

} // verus!
