use vstd::prelude::*;

verus! {

/// The text of each string of a sequence.
pub open spec fn texts(v: Seq<String>) -> Seq<Seq<char>> {
    v.map_values(|s: String| s@)
}

/// Adds `t` to a list of distinct texts unless it is already there.
pub open spec fn insert_text(v: Seq<Seq<char>>, t: Seq<char>) -> Seq<Seq<char>> {
    if v.contains(t) {
        v
    } else {
        v.push(t)
    }
}

/// Whether `s` reads `t`.
pub fn text_eq(s: &String, t: &str) -> (eq: bool)
    ensures
        eq == (s@ == t@),
{
    let owned = t.to_owned();
    *s == owned
}

/// Whether some string of `v` reads `t`.
pub fn contains_text(v: &Vec<String>, t: &str) -> (found: bool)
    ensures
        found == texts(v@).contains(t@),
{
    let mut i: usize = 0;
    while i < v.len()
        invariant
            0 <= i <= v@.len(),
            forall|j: int| 0 <= j < i ==> v@[j]@ != t@,
        decreases v@.len() - i,
    {
        if text_eq(&v[i], t) {
            assert(texts(v@)[i as int] == t@);
            return true;
        }
        i += 1;
    }
    assert forall|j: int| 0 <= j < texts(v@).len() implies texts(v@)[j] != t@ by {}
    false
}

/// Adds `t` to `v` unless some string of `v` already reads it.
pub fn insert_text_into(v: &mut Vec<String>, t: &str)
    ensures
        texts(final(v)@) == insert_text(texts(old(v)@), t@),
{
    if !contains_text(v, t) {
        let ghost before = texts(v@);
        v.push(t.to_owned());
        assert(texts(v@) =~= before.push(t@));
    }
}


/// Position of the first text of `keys` that reads `t`.
pub open spec fn first_index_of(keys: Seq<Seq<char>>, t: Seq<char>) -> Option<int>
    decreases keys.len(),
{
    if keys.len() == 0 {
        None
    } else {
        match first_index_of(keys.drop_last(), t) {
            Some(i) => Some(i),
            None => if keys.last() == t { Some(keys.len() - 1) } else { None },
        }
    }
}

pub proof fn lemma_first_index_none(keys: Seq<Seq<char>>, t: Seq<char>)
    requires
        forall|j: int| 0 <= j < keys.len() ==> keys[j] != t,
    ensures
        first_index_of(keys, t) == None::<int>,
    decreases keys.len(),
{
    if keys.len() > 0 {
        lemma_first_index_none(keys.drop_last(), t);
    }
}

pub proof fn lemma_first_index_found(keys: Seq<Seq<char>>, t: Seq<char>, i: int)
    requires
        0 <= i < keys.len(),
        keys[i] == t,
        forall|j: int| 0 <= j < i ==> keys[j] != t,
    ensures
        first_index_of(keys, t) == Some(i),
    decreases keys.len(),
{
    if keys.len() - 1 == i {
        lemma_first_index_none(keys.drop_last(), t);
    } else {
        lemma_first_index_found(keys.drop_last(), t, i);
    }
}

pub proof fn lemma_first_index_is_first(keys: Seq<Seq<char>>, t: Seq<char>)
    ensures
        match first_index_of(keys, t) {
            Some(i) => 0 <= i < keys.len() && keys[i] == t && forall|j: int| 0 <= j < i ==> keys[j] != t,
            None => forall|j: int| 0 <= j < keys.len() ==> keys[j] != t,
        },
    decreases keys.len(),
{
    if keys.len() > 0 {
        let d = keys.drop_last();
        lemma_first_index_is_first(d, t);
        assert forall|j: int| 0 <= j < d.len() implies d[j] == keys[j] by {}
    }
}

/// Whether every char of `s` is a decimal digit.
pub open spec fn all_decimal_digits(s: Seq<char>) -> bool {
    forall|i: int| 0 <= i < s.len() ==> '0' <= #[trigger] s[i] && s[i] <= '9'
}

/// The number that a run of decimal digits writes (leading zeros allowed).
pub open spec fn decimal_value(s: Seq<char>) -> int
    decreases s.len(),
{
    if s.len() == 0 {
        0
    } else {
        decimal_value(s.drop_last()) * 10 + (s.last() as int - '0' as int)
    }
}

/// The digits of a text read as an unsigned number: the text without one
/// leading `+`.
pub open spec fn unsigned_digits(s: Seq<char>) -> Seq<char> {
    if s.len() > 0 && s[0] == '+' {
        s.drop_first()
    } else {
        s
    }
}

/// What `str::parse::<u64>` gives for a text, as std documents it: an
/// optional `+` followed by one or more decimal digits writes a number, which
/// is the result when it is at most `u64::MAX`; any other text (empty, a sign
/// alone, a `-`, a space or another char, or a larger number) is an error,
/// here none.
pub open spec fn parsed_u64(s: Seq<char>) -> Option<u64> {
    let d = unsigned_digits(s);
    if d.len() > 0 && all_decimal_digits(d) && decimal_value(d) <= u64::MAX {
        Some(decimal_value(d) as u64)
    } else {
        None
    }
}

/// Calls `str::parse::<u64>`, an error becoming none.
#[verifier::external_body]
pub(crate) fn parse_u64(s: &str) -> (n: Option<u64>)
    ensures
        n == parsed_u64(s@),
{
    s.parse::<u64>().ok()
}

} // verus!
