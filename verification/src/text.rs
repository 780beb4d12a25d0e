//! Plain-text helpers: whitespace trimming, comma splitting, decimal
//! rendering of integers, and comma-joining — the string work the
//! configuration loader, the lookup client and the presenter share.

use vstd::prelude::*;
use vstd::string::*;

verus! {

/// A character with the Unicode `White_Space` property — the set that
/// surrounding-whitespace trimming removes.
pub open spec fn is_space(c: char) -> bool {
    let u = c as u32;
    (0x09 <= u && u <= 0x0D) || u == 0x20 || u == 0x85 || u == 0xA0 || u == 0x1680 || (0x2000
        <= u && u <= 0x200A) || u == 0x2028 || u == 0x2029 || u == 0x202F || u == 0x205F || u
        == 0x3000
}

fn is_space_char(c: char) -> (r: bool)
    ensures
        r == is_space(c),
{
    let u = c as u32;
    (0x09 <= u && u <= 0x0D) || u == 0x20 || u == 0x85 || u == 0xA0 || u == 0x1680 || (0x2000
        <= u && u <= 0x200A) || u == 0x2028 || u == 0x2029 || u == 0x202F || u == 0x205F || u
        == 0x3000
}

/// The text with its leading whitespace removed.
pub open spec fn trim_front(s: Seq<char>) -> Seq<char>
    decreases s.len(),
{
    if s.len() > 0 && is_space(s[0]) {
        trim_front(s.drop_first())
    } else {
        s
    }
}

/// The text with its trailing whitespace removed.
pub open spec fn trim_back(s: Seq<char>) -> Seq<char>
    decreases s.len(),
{
    if s.len() > 0 && is_space(s.last()) {
        trim_back(s.drop_last())
    } else {
        s
    }
}

/// The text with both leading and trailing whitespace removed.
pub open spec fn trimmed(s: Seq<char>) -> Seq<char> {
    trim_back(trim_front(s))
}

proof fn lemma_trim_front_skip(s: Seq<char>, i: int)
    requires
        0 <= i <= s.len(),
        forall|k: int| 0 <= k < i ==> is_space(s[k]),
        i < s.len() ==> !is_space(s[i]),
    ensures
        trim_front(s) == s.skip(i),
    decreases i,
{
    if i == 0 {
        assert(s.skip(0) =~= s);
    } else {
        lemma_trim_front_skip(s.drop_first(), i - 1);
        assert(s.drop_first().skip(i - 1) =~= s.skip(i));
    }
}

proof fn lemma_trim_back_take(s: Seq<char>, j: int)
    requires
        0 <= j <= s.len(),
        forall|k: int| j <= k < s.len() ==> is_space(s[k]),
        j > 0 ==> !is_space(s[j - 1]),
    ensures
        trim_back(s) == s.take(j),
    decreases s.len(),
{
    if s.len() == 0 {
        assert(s.take(0) =~= s);
    } else if j == s.len() {
        assert(s.take(j) =~= s);
    } else {
        lemma_trim_back_take(s.drop_last(), j);
        assert(s.drop_last().take(j) =~= s.take(j));
    }
}

/// Removes surrounding whitespace, and nothing else, from the text.
pub fn trim_str(s: &str) -> (r: String)
    ensures
        r@ == trimmed(s@),
{
    let n = s.unicode_len();
    let mut i: usize = 0;
    while i < n && is_space_char(s.get_char(i))
        invariant
            0 <= i <= n,
            n == s@.len(),
            forall|k: int| 0 <= k < i ==> is_space(s@[k]),
        decreases n - i,
    {
        i = i + 1;
    }
    let mut j: usize = n;
    while j > i && is_space_char(s.get_char(j - 1))
        invariant
            i <= j <= n,
            n == s@.len(),
            forall|k: int| j <= k < n ==> is_space(s@[k]),
        decreases j,
    {
        j = j - 1;
    }
    let sub = s.substring_char(i, j);
    proof {
        lemma_trim_front_skip(s@, i as int);
        lemma_trim_back_take(s@.skip(i as int), j - i);
        assert(s@.subrange(i as int, j as int) =~= s@.skip(i as int).take(j - i));
    }
    sub.to_owned()
}

/// The decimal digit for a value below ten.
pub open spec fn digit_char(d: int) -> char
    recommends
        0 <= d < 10,
{
    if d == 0 {
        '0'
    } else if d == 1 {
        '1'
    } else if d == 2 {
        '2'
    } else if d == 3 {
        '3'
    } else if d == 4 {
        '4'
    } else if d == 5 {
        '5'
    } else if d == 6 {
        '6'
    } else if d == 7 {
        '7'
    } else if d == 8 {
        '8'
    } else {
        '9'
    }
}

/// The decimal digits of a non-negative value, most significant first,
/// with no leading zero except for the value zero itself.
pub open spec fn dec_digits(n: nat) -> Seq<char>
    decreases n,
{
    if n < 10 {
        seq![digit_char(n as int)]
    } else {
        dec_digits(n / 10) + seq![digit_char((n % 10) as int)]
    }
}

/// The decimal rendering of an integer, with a leading minus sign when
/// it is negative.
pub open spec fn int_to_dec(n: int) -> Seq<char> {
    if n < 0 {
        seq!['-'] + dec_digits((-n) as nat)
    } else {
        dec_digits(n as nat)
    }
}

fn digit_str(d: u64) -> (r: &'static str)
    requires
        d < 10,
    ensures
        r@ == seq![digit_char(d as int)],
{
    if d == 0 {
        proof {
            reveal_strlit("0");
            assert("0"@ =~= seq![digit_char(d as int)]);
        }
        "0"
    } else if d == 1 {
        proof {
            reveal_strlit("1");
            assert("1"@ =~= seq![digit_char(d as int)]);
        }
        "1"
    } else if d == 2 {
        proof {
            reveal_strlit("2");
            assert("2"@ =~= seq![digit_char(d as int)]);
        }
        "2"
    } else if d == 3 {
        proof {
            reveal_strlit("3");
            assert("3"@ =~= seq![digit_char(d as int)]);
        }
        "3"
    } else if d == 4 {
        proof {
            reveal_strlit("4");
            assert("4"@ =~= seq![digit_char(d as int)]);
        }
        "4"
    } else if d == 5 {
        proof {
            reveal_strlit("5");
            assert("5"@ =~= seq![digit_char(d as int)]);
        }
        "5"
    } else if d == 6 {
        proof {
            reveal_strlit("6");
            assert("6"@ =~= seq![digit_char(d as int)]);
        }
        "6"
    } else if d == 7 {
        proof {
            reveal_strlit("7");
            assert("7"@ =~= seq![digit_char(d as int)]);
        }
        "7"
    } else if d == 8 {
        proof {
            reveal_strlit("8");
            assert("8"@ =~= seq![digit_char(d as int)]);
        }
        "8"
    } else {
        proof {
            reveal_strlit("9");
            assert("9"@ =~= seq![digit_char(d as int)]);
        }
        "9"
    }
}

/// Renders a non-negative value in decimal.
pub fn u64_to_string(n: u64) -> (r: String)
    ensures
        r@ == dec_digits(n as nat),
    decreases n,
{
    if n < 10 {
        digit_str(n).to_owned()
    } else {
        let mut r = u64_to_string(n / 10);
        r.append(digit_str(n % 10));
        proof {
            assert(r@ =~= dec_digits(n as nat));
        }
        r
    }
}

/// Renders a signed value in decimal.
pub fn i64_to_string(n: i64) -> (r: String)
    ensures
        r@ == int_to_dec(n as int),
{
    if n >= 0 {
        u64_to_string(n as u64)
    } else {
        let mag: u64 = ((-(n + 1)) as u64) + 1;
        let mut r = "-".to_owned();
        r.append(u64_to_string(mag).as_str());
        proof {
            reveal_strlit("-");
            assert("-"@ =~= seq!['-']);
            assert(r@ =~= int_to_dec(n as int));
        }
        r
    }
}

/// The ports of the list rendered in decimal, in the order given,
/// separated by a comma and a space.
pub open spec fn join_ports(s: Seq<i64>) -> Seq<char>
    decreases s.len(),
{
    if s.len() == 0 {
        Seq::empty()
    } else if s.len() == 1 {
        int_to_dec(s[0] as int)
    } else {
        join_ports(s.drop_last()) + ", "@ + int_to_dec(s.last() as int)
    }
}

/// Joins the ports of the list in decimal, separated by `", "`.
pub fn join_ports_exec(v: &Vec<i64>) -> (r: String)
    ensures
        r@ == join_ports(v@),
{
    let mut r = String::new();
    let mut i: usize = 0;
    while i < v.len()
        invariant
            0 <= i <= v@.len(),
            r@ == join_ports(v@.take(i as int)),
        decreases v@.len() - i,
    {
        if i > 0 {
            r.append(", ");
        }
        r.append(i64_to_string(v[i]).as_str());
        proof {
            assert(v@.take(i + 1).drop_last() =~= v@.take(i as int));
            assert(r@ =~= join_ports(v@.take(i + 1)));
        }
        i = i + 1;
    }
    proof {
        assert(v@.take(v@.len() as int) =~= v@);
    }
    r
}

/// The views of the strings of a list.
pub open spec fn views_of(ss: Seq<String>) -> Seq<Seq<char>> {
    ss.map_values(|s: String| s@)
}

/// The pieces of the list joined with a comma and a space between
/// neighbours.
pub open spec fn join_comma(ps: Seq<Seq<char>>) -> Seq<char>
    decreases ps.len(),
{
    if ps.len() == 0 {
        Seq::empty()
    } else if ps.len() == 1 {
        ps[0]
    } else {
        join_comma(ps.drop_last()) + ", "@ + ps.last()
    }
}

/// Joins the strings of the list, separated by `", "`.
pub fn join_comma_exec(v: &Vec<String>) -> (r: String)
    ensures
        r@ == join_comma(views_of(v@)),
{
    let mut r = String::new();
    let mut i: usize = 0;
    while i < v.len()
        invariant
            0 <= i <= v@.len(),
            r@ == join_comma(views_of(v@.take(i as int))),
        decreases v@.len() - i,
    {
        if i > 0 {
            r.append(", ");
        }
        r.append(v[i].as_str());
        proof {
            assert(views_of(v@.take(i + 1)).drop_last() =~= views_of(v@.take(i as int)));
            assert(views_of(v@.take(i + 1)).last() == v@[i as int]@);
            assert(r@ =~= join_comma(views_of(v@.take(i + 1))));
        }
        i = i + 1;
    }
    proof {
        assert(v@.take(v@.len() as int) =~= v@);
        assert(views_of(v@.take(v@.len() as int)) =~= views_of(v@));
    }
    r
}

/// The pieces of the text between its commas, in order. A text without
/// a comma is one piece; each comma ends a piece, so `n` commas give
/// `n + 1` pieces, and neighbouring commas give empty pieces.
pub open spec fn split_commas(s: Seq<char>) -> Seq<Seq<char>>
    decreases s.len(),
{
    if s.len() == 0 {
        seq![Seq::<char>::empty()]
    } else {
        let rest = split_commas(s.drop_first());
        if s[0] == ',' {
            seq![Seq::<char>::empty()] + rest
        } else {
            seq![seq![s[0]] + rest[0]] + rest.drop_first()
        }
    }
}

pub proof fn lemma_split_len(s: Seq<char>)
    ensures
        split_commas(s).len() >= 1,
    decreases s.len(),
{
    if s.len() > 0 {
        lemma_split_len(s.drop_first());
    }
}

/// Appending one character extends the last piece, or, for a comma,
/// opens a new empty piece.
proof fn lemma_split_push(t: Seq<char>, c: char)
    ensures
        c == ',' ==> split_commas(t.push(c)) == split_commas(t).push(Seq::<char>::empty()),
        c != ',' ==> split_commas(t.push(c)) == split_commas(t).update(
            split_commas(t).len() - 1,
            split_commas(t).last().push(c),
        ),
    decreases t.len(),
{
    lemma_split_len(t);
    if t.len() == 0 {
        assert(t.push(c).drop_first() =~= t);
        if c == ',' {
            assert(split_commas(t.push(c)) =~~= split_commas(t).push(Seq::<char>::empty()));
        } else {
            assert(split_commas(t.push(c)) =~~= split_commas(t).update(
                0,
                split_commas(t).last().push(c),
            ));
        }
    } else {
        let sp = split_commas(t.drop_first());
        lemma_split_len(t.drop_first());
        assert(t.push(c).drop_first() =~= t.drop_first().push(c));
        lemma_split_push(t.drop_first(), c);
        if t[0] == ',' {
            if c == ',' {
                assert(split_commas(t.push(c)) =~~= split_commas(t).push(Seq::<char>::empty()));
            } else {
                assert(split_commas(t.push(c)) =~~= split_commas(t).update(
                    split_commas(t).len() - 1,
                    split_commas(t).last().push(c),
                ));
            }
        } else {
            if c == ',' {
                assert(sp.push(Seq::<char>::empty())[0] == sp[0]);
                assert(sp.push(Seq::<char>::empty()).drop_first() =~~= sp.drop_first().push(
                    Seq::<char>::empty(),
                ));
                assert(split_commas(t.push(c)) =~~= split_commas(t).push(Seq::<char>::empty()));
            } else {
                let sp2 = sp.update(sp.len() - 1, sp.last().push(c));
                if sp.len() == 1 {
                    assert(sp2[0] == sp[0].push(c));
                    assert(seq![t[0]] + sp[0].push(c) =~= (seq![t[0]] + sp[0]).push(c));
                    assert(split_commas(t.push(c)) =~~= split_commas(t).update(
                        split_commas(t).len() - 1,
                        split_commas(t).last().push(c),
                    ));
                } else {
                    assert(sp2[0] == sp[0]);
                    assert(sp2.drop_first() =~~= sp.drop_first().update(
                        sp.len() - 2,
                        sp.last().push(c),
                    ));
                    assert(split_commas(t).last() == sp.last());
                    assert(split_commas(t.push(c)) =~~= split_commas(t).update(
                        split_commas(t).len() - 1,
                        split_commas(t).last().push(c),
                    ));
                }
            }
        }
    }
}

/// Every piece of the list with its surrounding whitespace removed.
pub open spec fn trim_all(ps: Seq<Seq<char>>) -> Seq<Seq<char>> {
    ps.map_values(|p: Seq<char>| trimmed(p))
}

/// Splits the text at every comma; `n` commas give `n + 1` pieces, in
/// order, each held exactly as it stands in the text.
pub fn split_commas_exec(s: &str) -> (r: Vec<String>)
    ensures
        views_of(r@) == split_commas(s@),
{
    let n = s.unicode_len();
    let mut r: Vec<String> = Vec::new();
    let mut start: usize = 0;
    let mut i: usize = 0;
    proof {
        assert(views_of(r@).push(s@.subrange(0, 0)) =~~= split_commas(s@.take(0)));
    }
    while i < n
        invariant
            0 <= start <= i <= n,
            n == s@.len(),
            views_of(r@).push(s@.subrange(start as int, i as int)) =~~= split_commas(
                s@.take(i as int),
            ),
        decreases n - i,
    {
        let c = s.get_char(i);
        proof {
            assert(s@.take(i + 1) =~= s@.take(i as int).push(s@[i as int]));
            lemma_split_push(s@.take(i as int), s@[i as int]);
            lemma_split_len(s@.take(i as int));
        }
        if c == ',' {
            let piece = s.substring_char(start, i).to_owned();
            r.push(piece);
            start = i + 1;
            proof {
                assert(views_of(r@).push(s@.subrange(start as int, i + 1)) =~~= split_commas(
                    s@.take(i + 1),
                ));
            }
        } else {
            proof {
                let prev = views_of(r@).push(s@.subrange(start as int, i as int));
                assert(prev.last() == s@.subrange(start as int, i as int));
                assert(s@.subrange(start as int, i as int).push(s@[i as int]) =~= s@.subrange(
                    start as int,
                    i + 1,
                ));
                assert(prev.update(prev.len() - 1, prev.last().push(s@[i as int]))
                    =~~= views_of(r@).push(s@.subrange(start as int, i + 1)));
                assert(views_of(r@).push(s@.subrange(start as int, i + 1)) =~~= split_commas(
                    s@.take(i + 1),
                ));
            }
        }
        i = i + 1;
    }
    let last_piece = s.substring_char(start, n).to_owned();
    r.push(last_piece);
    proof {
        assert(s@.take(n as int) =~= s@);
        assert(views_of(r@) =~~= split_commas(s@));
    }
    r
}

} // verus!
