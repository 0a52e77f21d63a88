//! Verified string helpers used by the supervisor core: character search,
//! equality, prefix stripping, concatenation and substring search, each with
//! an exact contract over the string's view (a sequence of characters).
use vstd::prelude::*;

verus! {

/// Equality of two string slices, decided character by character.
pub fn str_eq(a: &str, b: &str) -> (r: bool)
    ensures
        r == (a@ == b@),
{
    let alen = a.unicode_len();
    let blen = b.unicode_len();
    if alen != blen {
        return false;
    }
    let mut i: usize = 0;
    while i < alen
        invariant
            alen == a@.len(),
            blen == b@.len(),
            alen == blen,
            i <= alen,
            forall|j: int| 0 <= j < i ==> a@[j] == b@[j],
        decreases alen - i,
    {
        if a.get_char(i) != b.get_char(i) {
            return false;
        }
        i = i + 1;
    }
    proof {
        assert(a@ =~= b@);
    }
    true
}

/// Index of the first occurrence of `c` in `s`, if any.
pub fn find_char(s: &str, c: char) -> (r: Option<usize>)
    ensures
        match r {
            Some(i) => i < s@.len() && s@[i as int] == c && forall|j: int|
                0 <= j < i ==> s@[j] != c,
            None => forall|j: int| 0 <= j < s@.len() ==> s@[j] != c,
        },
{
    let len = s.unicode_len();
    let mut i: usize = 0;
    while i < len
        invariant
            len == s@.len(),
            i <= len,
            forall|j: int| 0 <= j < i ==> s@[j] != c,
        decreases len - i,
    {
        if s.get_char(i) == c {
            return Some(i);
        }
        i = i + 1;
    }
    None
}

/// Whether `c` occurs in `s`.
pub fn contains_char(s: &str, c: char) -> (r: bool)
    ensures
        r == s@.contains(c),
{
    match find_char(s, c) {
        Some(i) => {
            proof {
                assert(s@[i as int] == c);
            }
            true
        },
        None => {
            proof {
                assert(forall|j: int| 0 <= j < s@.len() ==> s@[j] != c);
                assert(!s@.contains(c));
            }
            false
        },
    }
}

/// The characters of `s` with every leading `c` removed.
pub open spec fn spec_strip_leading(s: Seq<char>, c: char) -> Seq<char>
    decreases s.len(),
{
    if s.len() > 0 && s[0] == c {
        spec_strip_leading(s.drop_first(), c)
    } else {
        s
    }
}

proof fn lemma_strip_leading_skip(s: Seq<char>, c: char, i: int)
    requires
        0 <= i <= s.len(),
        forall|j: int| 0 <= j < i ==> s[j] == c,
    ensures
        spec_strip_leading(s, c) == spec_strip_leading(s.skip(i), c),
    decreases i,
{
    if i > 0 {
        assert(s.len() > 0 && s[0] == c);
        lemma_strip_leading_skip(s.drop_first(), c, i - 1);
        assert(s.drop_first().skip(i - 1) =~= s.skip(i));
    } else {
        assert(s.skip(0) =~= s);
    }
}

/// Remove every leading occurrence of `c` from `s`.
pub fn strip_leading_char(s: &str, c: char) -> (r: String)
    ensures
        r@ == spec_strip_leading(s@, c),
{
    let len = s.unicode_len();
    let mut i: usize = 0;
    while i < len && s.get_char(i) == c
        invariant
            len == s@.len(),
            i <= len,
            forall|j: int| 0 <= j < i ==> s@[j] == c,
        decreases len - i,
    {
        i = i + 1;
    }
    proof {
        lemma_strip_leading_skip(s@, c, i as int);
        if i < len {
            assert(s@.skip(i as int)[0] == s@[i as int]);
            assert(spec_strip_leading(s@.skip(i as int), c) == s@.skip(i as int));
        } else {
            assert(s@.skip(i as int) =~= Seq::<char>::empty());
            assert(spec_strip_leading(s@.skip(i as int), c) == s@.skip(i as int));
        }
        assert(s@.subrange(i as int, len as int) =~= s@.skip(i as int));
    }
    let tail = s.substring_char(i, len);
    tail.to_owned()
}

/// Concatenation of two string slices.
pub fn concat_strs(a: &str, b: &str) -> (r: String)
    ensures
        r@ == a@ + b@,
{
    let owned = String::from_str(a);
    owned.concat(b)
}

/// Whether `needle` occurs in `hay` starting at position `i`.
pub open spec fn substr_at(hay: Seq<char>, needle: Seq<char>, i: int) -> bool {
    0 <= i && i + needle.len() <= hay.len() && hay.subrange(i, i + needle.len()) == needle
}

/// Whether `needle` occurs anywhere in `hay`.
pub open spec fn has_substr(hay: Seq<char>, needle: Seq<char>) -> bool {
    exists|i: int| substr_at(hay, needle, i)
}

/// Position of the first occurrence of `needle` in `hay`, if any.
pub fn find_substr(hay: &str, needle: &str) -> (r: Option<usize>)
    ensures
        match r {
            Some(i) => substr_at(hay@, needle@, i as int) && forall|j: int|
                0 <= j < i ==> !substr_at(hay@, needle@, j),
            None => !has_substr(hay@, needle@),
        },
{
    let hlen = hay.unicode_len();
    let nlen = needle.unicode_len();
    if nlen > hlen {
        return None;
    }
    let mut i: usize = 0;
    while i <= hlen - nlen
        invariant
            hlen == hay@.len(),
            nlen == needle@.len(),
            nlen <= hlen,
            i <= hlen - nlen + 1,
            forall|j: int| 0 <= j < i ==> !substr_at(hay@, needle@, j),
        decreases hlen - nlen + 1 - i,
    {
        let mut k: usize = 0;
        let mut matched = true;
        while k < nlen
            invariant_except_break
                matched,
                forall|m: int| 0 <= m < k ==> hay@[i + m] == needle@[m],
            invariant
                hlen == hay@.len(),
                nlen == needle@.len(),
                nlen <= hlen,
                i <= hlen - nlen,
                k <= nlen,
            ensures
                matched ==> k == nlen && forall|m: int| 0 <= m < nlen ==> hay@[i + m] == needle@[m],
                !matched ==> k < nlen && hay@[i + k as int] != needle@[k as int],
            decreases nlen - k,
        {
            if hay.get_char(i + k) != needle.get_char(k) {
                matched = false;
                break;
            }
            k = k + 1;
        }
        if matched {
            proof {
                assert(hay@.subrange(i as int, i + nlen as int) =~= needle@);
            }
            return Some(i);
        } else {
            proof {
                assert(hay@[i + k as int] != needle@[k as int]);
                assert(!substr_at(hay@, needle@, i as int)) by {
                    if substr_at(hay@, needle@, i as int) {
                        assert(hay@.subrange(i as int, i + nlen as int)[k as int] == hay@[i
                            + k as int]);
                    }
                }
            }
        }
        i = i + 1;
    }
    proof {
        assert(forall|j: int| 0 <= j < hlen - nlen + 1 ==> !substr_at(hay@, needle@, j));
        assert(!has_substr(hay@, needle@)) by {
            if has_substr(hay@, needle@) {
                let j = choose|j: int| substr_at(hay@, needle@, j);
                assert(0 <= j < hlen - nlen + 1);
            }
        }
    }
    None
}

/// Whether `needle` occurs anywhere in `hay`.
pub fn contains_substr(hay: &str, needle: &str) -> (r: bool)
    ensures
        r == has_substr(hay@, needle@),
{
    match find_substr(hay, needle) {
        Some(i) => {
            proof {
                assert(substr_at(hay@, needle@, i as int));
            }
            true
        },
        None => false,
    }
}

/// Index of the last occurrence of `c` strictly before position `end`, if any.
pub fn rfind_char_before(s: &str, c: char, end: usize) -> (r: Option<usize>)
    requires
        end <= s@.len(),
    ensures
        match r {
            Some(i) => i < end && s@[i as int] == c && forall|j: int|
                i < j < end ==> s@[j] != c,
            None => forall|j: int| 0 <= j < end ==> s@[j] != c,
        },
{
    let mut i: usize = end;
    while i > 0
        invariant
            end <= s@.len(),
            i <= end,
            forall|j: int| i <= j < end ==> s@[j] != c,
        decreases i,
    {
        i = i - 1;
        if s.get_char(i) == c {
            return Some(i);
        }
    }
    None
}

/// A character that `trim_quote_chars` removes: a double quote, a comma
/// or a space.
pub open spec fn is_trim_char(c: char) -> bool {
    c == '"' || c == ',' || c == ' '
}

/// `s` with leading trim characters removed.
pub open spec fn spec_trim_front(s: Seq<char>) -> Seq<char>
    decreases s.len(),
{
    if s.len() > 0 && is_trim_char(s[0]) {
        spec_trim_front(s.drop_first())
    } else {
        s
    }
}

/// `s` with trailing trim characters removed.
pub open spec fn spec_trim_back(s: Seq<char>) -> Seq<char>
    decreases s.len(),
{
    if s.len() > 0 && is_trim_char(s.last()) {
        spec_trim_back(s.drop_last())
    } else {
        s
    }
}

/// `s` with leading and trailing quotes, commas and spaces removed.
pub open spec fn spec_trim(s: Seq<char>) -> Seq<char> {
    spec_trim_back(spec_trim_front(s))
}

proof fn lemma_trim_front_skip(s: Seq<char>, i: int)
    requires
        0 <= i <= s.len(),
        forall|j: int| 0 <= j < i ==> is_trim_char(s[j]),
    ensures
        spec_trim_front(s) == spec_trim_front(s.skip(i)),
    decreases i,
{
    if i > 0 {
        assert(s.len() > 0 && is_trim_char(s[0]));
        lemma_trim_front_skip(s.drop_first(), i - 1);
        assert(s.drop_first().skip(i - 1) =~= s.skip(i));
    } else {
        assert(s.skip(0) =~= s);
    }
}

proof fn lemma_trim_back_take(s: Seq<char>, i: int)
    requires
        0 <= i <= s.len(),
        forall|j: int| i <= j < s.len() ==> is_trim_char(s[j]),
    ensures
        spec_trim_back(s) == spec_trim_back(s.take(i)),
    decreases s.len() - i,
{
    if i < s.len() {
        assert(is_trim_char(s.last()));
        lemma_trim_back_take(s.drop_last(), i);
        assert(s.drop_last().take(i) =~= s.take(i));
    } else {
        assert(s.take(i) =~= s);
    }
}

/// Whether `c` is a character that `trim_quote_chars` removes.
fn is_trim(c: char) -> (r: bool)
    ensures
        r == is_trim_char(c),
{
    c == '"' || c == ',' || c == ' '
}

/// Remove leading and trailing quotes, commas and spaces from `s`.
pub fn trim_quote_chars(s: &str) -> (r: String)
    ensures
        r@ == spec_trim(s@),
{
    let len = s.unicode_len();
    let mut start: usize = 0;
    while start < len && is_trim(s.get_char(start))
        invariant
            len == s@.len(),
            start <= len,
            forall|j: int| 0 <= j < start ==> is_trim_char(s@[j]),
        decreases len - start,
    {
        start = start + 1;
    }
    let mut stop: usize = len;
    while stop > start && is_trim(s.get_char(stop - 1))
        invariant
            len == s@.len(),
            start <= stop <= len,
            forall|j: int| 0 <= j < start ==> is_trim_char(s@[j]),
            forall|j: int| stop <= j < len ==> is_trim_char(s@[j]),
        decreases stop,
    {
        stop = stop - 1;
    }
    let ghost front = s@.skip(start as int);
    proof {
        lemma_trim_front_skip(s@, start as int);
        if start < len {
            assert(front[0] == s@[start as int]);
            assert(!is_trim_char(front[0]));
            assert(spec_trim_front(front) == front);
        } else {
            assert(front =~= Seq::<char>::empty());
            assert(spec_trim_front(front) == front);
        }
        // now spec_trim(s@) == spec_trim_back(front)
        lemma_trim_back_take(front, stop - start);
        let taken = front.take(stop - start);
        if stop > start {
            assert(taken.last() == s@[stop - 1]);
            assert(!is_trim_char(taken.last()));
            assert(spec_trim_back(taken) == taken);
        } else {
            assert(taken =~= Seq::<char>::empty());
            assert(spec_trim_back(taken) == taken);
        }
        assert(s@.subrange(start as int, stop as int) =~= taken);
    }
    let mid = s.substring_char(start, stop);
    mid.to_owned()
}

/// Split `s` at the first occurrence of `c`: the part before and the part
/// after the separator, which is dropped.
pub fn split_once_char(s: &str, c: char) -> (r: Option<(String, String)>)
    ensures
        match r {
            Some(pair) => exists|i: int|
                {
                    &&& 0 <= i < s@.len()
                    &&& s@[i] == c
                    &&& (forall|j: int| 0 <= j < i ==> s@[j] != c)
                    &&& pair.0@ == s@.subrange(0, i)
                    &&& pair.1@ == s@.subrange(i + 1, s@.len() as int)
                },
            None => !s@.contains(c),
        },
{
    let len = s.unicode_len();
    match find_char(s, c) {
        Some(i) => {
            let head = s.substring_char(0, i);
            let tail = s.substring_char(i + 1, len);
            let pair = (head.to_owned(), tail.to_owned());
            proof {
                assert(exists|k: int|
                    {
                        &&& 0 <= k < s@.len()
                        &&& s@[k] == c
                        &&& (forall|j: int| 0 <= j < k ==> s@[j] != c)
                        &&& pair.0@ == s@.subrange(0, k)
                        &&& pair.1@ == s@.subrange(k + 1, s@.len() as int)
                    }) by {
                    let k = i as int;
                    assert({
                        &&& 0 <= k < s@.len()
                        &&& s@[k] == c
                        &&& (forall|j: int| 0 <= j < k ==> s@[j] != c)
                        &&& pair.0@ == s@.subrange(0, k)
                        &&& pair.1@ == s@.subrange(k + 1, s@.len() as int)
                    });
                }
            }
            Some(pair)
        },
        None => {
            proof {
                if s@.contains(c) {
                    let k = choose|k: int| 0 <= k < s@.len() && s@[k] == c;
                }
            }
            None
        },
    }
}

} // verus!
