//! Helpers on text: identifiers and decimal numerals.

use vstd::prelude::*;

verus! {

/// Whether `c` is an ASCII letter.
pub open spec fn is_letter(c: char) -> bool {
    ('a' <= c && c <= 'z') || ('A' <= c && c <= 'Z')
}

/// Whether `c` may continue an identifier: an ASCII letter, an ASCII digit or
/// an underscore.
pub open spec fn is_ident_continue(c: char) -> bool {
    is_letter(c) || c == '_' || ('0' <= c && c <= '9')
}

/// Whether `s` is an identifier: a letter, or an underscore and at least one
/// more character, and then only letters, digits and underscores. Only the
/// ASCII letters count: such a name is an identifier whatever version of
/// Unicode decides, and it is written as it is read.
pub open spec fn is_identifier(s: Seq<char>) -> bool {
    &&& s.len() > 0
    &&& is_letter(s[0]) || (s[0] == '_' && s.len() > 1)
    &&& forall|i: int| 0 < i < s.len() ==> is_ident_continue(#[trigger] s[i])
}

/// Decides whether `s` is an identifier.
pub fn check_identifier(s: &str) -> (ok: bool)
    ensures
        ok == is_identifier(s@),
{
    let n: usize = s.unicode_len();
    if n == 0 {
        return false;
    }
    let first: char = s.get_char(0);
    let letter: bool = ('a' <= first && first <= 'z') || ('A' <= first && first <= 'Z');
    if !(letter || (first == '_' && n > 1)) {
        return false;
    }
    let mut i: usize = 1;
    while i < n
        invariant
            1 <= i <= n,
            n == s@.len(),
            forall|j: int| 0 < j < i ==> is_ident_continue(#[trigger] s@[j]),
        decreases n - i,
    {
        let c: char = s.get_char(i);
        let ok: bool = ('a' <= c && c <= 'z') || ('A' <= c && c <= 'Z') || c == '_' || ('0' <= c
            && c <= '9');
        if !ok {
            return false;
        }
        i += 1;
    }
    true
}

/// How one text stands to another.
#[derive(Clone, Copy, PartialEq, Eq, Debug, Structural)]
pub enum Rank {
    Before,
    Same,
    After,
}

/// How `a` stands to `b` in the order of the dictionary: the first place at
/// which they differ decides, by the order of the characters there, and a
/// text comes before every text that it begins.
pub open spec fn rank(a: Seq<char>, b: Seq<char>) -> Rank
    decreases a.len(),
{
    if a.len() == 0 {
        if b.len() == 0 {
            Rank::Same
        } else {
            Rank::Before
        }
    } else if b.len() == 0 {
        Rank::After
    } else if a[0] < b[0] {
        Rank::Before
    } else if a[0] > b[0] {
        Rank::After
    } else {
        rank(a.drop_first(), b.drop_first())
    }
}

/// Two texts have the same rank exactly when they are the same text.
pub proof fn rank_same_is_equal(a: Seq<char>, b: Seq<char>)
    ensures
        rank(a, b) == Rank::Same <==> a == b,
    decreases a.len(),
{
    if a.len() > 0 && b.len() > 0 && a[0] == b[0] {
        rank_same_is_equal(a.drop_first(), b.drop_first());
        if a.drop_first() == b.drop_first() {
            assert(a =~= seq![a[0]] + a.drop_first());
            assert(b =~= seq![b[0]] + b.drop_first());
        }
    } else if a.len() == 0 && b.len() == 0 {
        assert(a =~= b);
    }
}

/// Decides how `a` stands to `b` in the order of the dictionary.
pub fn compare_texts(a: &str, b: &str) -> (order: Rank)
    ensures
        order == rank(a@, b@),
{
    let n: usize = a.unicode_len();
    let m: usize = b.unicode_len();
    let mut i: usize = 0;
    assert(a@.skip(0) == a@ && b@.skip(0) == b@);
    loop
        invariant
            i <= n,
            i <= m,
            n == a@.len(),
            m == b@.len(),
            rank(a@, b@) == rank(a@.skip(i as int), b@.skip(i as int)),
        decreases n - i,
    {
        if i == n {
            return if i == m {
                Rank::Same
            } else {
                Rank::Before
            };
        }
        if i == m {
            return Rank::After;
        }
        let x: char = a.get_char(i);
        let y: char = b.get_char(i);
        proof {
            assert(a@.skip(i as int)[0] == x);
            assert(b@.skip(i as int)[0] == y);
            assert(a@.skip(i as int).drop_first() == a@.skip(i + 1));
            assert(b@.skip(i as int).drop_first() == b@.skip(i + 1));
        }
        if x < y {
            return Rank::Before;
        }
        if x > y {
            return Rank::After;
        }
        i += 1;
    }
}

/// Copies a list of strings.
pub fn clone_strings(list: &Vec<String>) -> (copy: Vec<String>)
    ensures
        copy.deep_view() == list.deep_view(),
{
    let mut copy: Vec<String> = Vec::new();
    let mut i: usize = 0;
    while i < list.len()
        invariant
            i <= list.len(),
            copy.len() == i,
            forall|j: int| 0 <= j < i ==> copy[j]@ == list[j]@,
        decreases list.len() - i,
    {
        copy.push(list[i].clone());
        i += 1;
    }
    assert(copy.deep_view() =~= list.deep_view());
    copy
}

/// Copies a string that may be absent.
pub fn clone_optional(text: &Option<String>) -> (copy: Option<String>)
    ensures
        copy.deep_view() == text.deep_view(),
{
    match text {
        Some(t) => Some(t.clone()),
        None => None,
    }
}

/// The character that writes the digit `d`.
pub open spec fn digit_char(d: nat) -> char {
    if d == 0 {
        '0'
    } else if d == 1 {
        '1'
    } else if d == 2 {
        '2'
    } else if d == 3 {
        '3'
    } else if d == 4 {
        '4'
    } else if d == 5 {
        '5'
    } else if d == 6 {
        '6'
    } else if d == 7 {
        '7'
    } else if d == 8 {
        '8'
    } else {
        '9'
    }
}

/// The decimal numeral of `n`, without leading zeros.
pub open spec fn decimal_text(n: nat) -> Seq<char>
    decreases n,
{
    if n < 10 {
        seq![digit_char(n)]
    } else {
        decimal_text(n / 10).push(digit_char(n % 10))
    }
}

fn digit_text(d: usize) -> (text: &'static str)
    requires
        d < 10,
    ensures
        text@ == seq![digit_char(d as nat)],
{
    proof {
        reveal_strlit("0");
        reveal_strlit("1");
        reveal_strlit("2");
        reveal_strlit("3");
        reveal_strlit("4");
        reveal_strlit("5");
        reveal_strlit("6");
        reveal_strlit("7");
        reveal_strlit("8");
        reveal_strlit("9");
    }
    let text: &'static str = if d == 0 {
        "0"
    } else if d == 1 {
        "1"
    } else if d == 2 {
        "2"
    } else if d == 3 {
        "3"
    } else if d == 4 {
        "4"
    } else if d == 5 {
        "5"
    } else if d == 6 {
        "6"
    } else if d == 7 {
        "7"
    } else if d == 8 {
        "8"
    } else {
        "9"
    };
    assert(text@ =~= seq![digit_char(d as nat)]);
    text
}

/// Writes `n` as a decimal numeral.
pub fn decimal(n: usize) -> (text: String)
    ensures
        text@ == decimal_text(n as nat),
    decreases n,
{
    if n < 10 {
        String::from_str(digit_text(n))
    } else {
        let mut text: String = decimal(n / 10);
        text.append(digit_text(n % 10));
        assert(text@ =~= decimal_text(n as nat));
        text
    }
}

} // verus!
