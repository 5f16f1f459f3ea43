//! Text as sequences of characters: splitting, joining, decimal numerals and
//! the two std conversions the protocol relies on.

use vstd::prelude::*;

verus! {

/// The views of a sequence of owned strings.
pub open spec fn texts(v: Seq<String>) -> Seq<Seq<char>> {
    Seq::new(v.len(), |i: int| v[i]@)
}

/// The views of a sequence of borrowed strings.
pub open spec fn slices(v: Seq<&str>) -> Seq<Seq<char>> {
    Seq::new(v.len(), |i: int| v[i]@)
}

/// The pieces of `s` between occurrences of `sep`. There is always one piece
/// more than there are separators, so the empty text has one empty piece.
pub open spec fn split(s: Seq<char>, sep: char) -> Seq<Seq<char>>
    decreases s.len(),
{
    if s.len() == 0 {
        seq![Seq::<char>::empty()]
    } else {
        let before = split(s.drop_last(), sep);
        if s.last() == sep {
            before.push(Seq::<char>::empty())
        } else {
            before.update(before.len() - 1, before.last().push(s.last()))
        }
    }
}

/// The pieces of `parts` written one after another with `sep` between
/// neighbours.
pub open spec fn joined(parts: Seq<Seq<char>>, sep: Seq<char>) -> Seq<char>
    decreases parts.len(),
{
    if parts.len() == 0 {
        Seq::<char>::empty()
    } else if parts.len() == 1 {
        parts[0]
    } else {
        joined(parts.drop_last(), sep) + sep + parts.last()
    }
}

/// Splitting never yields an empty list of pieces.
pub proof fn lemma_split_nonempty(s: Seq<char>, sep: char)
    ensures
        split(s, sep).len() >= 1,
    decreases s.len(),
{
    if s.len() > 0 {
        lemma_split_nonempty(s.drop_last(), sep);
    }
}

/// A text without the separator is its own single piece.
pub proof fn lemma_split_plain(s: Seq<char>, sep: char)
    requires
        !s.contains(sep),
    ensures
        split(s, sep) == seq![s],
    decreases s.len(),
{
    if s.len() > 0 {
        let init = s.drop_last();
        assert(s[s.len() - 1] == s.last());
        assert forall|c: char| init.contains(c) implies s.contains(c) by {
            let i = choose|i: int| 0 <= i < init.len() && init[i] == c;
            assert(s[i] == c);
        }
        lemma_split_plain(init, sep);
        assert(s.contains(s.last()));
        assert(init.push(s.last()) =~= s);
        assert(seq![init].update(0, s) =~= seq![s]);
    } else {
        assert(s =~= Seq::<char>::empty());
    }
}

/// Appending a separator and a piece that holds no separator appends that
/// piece to the list.
pub proof fn lemma_split_append(a: Seq<char>, b: Seq<char>, sep: char)
    requires
        !b.contains(sep),
    ensures
        split(a + seq![sep] + b, sep) == split(a, sep).push(b),
    decreases b.len(),
{
    let whole = a + seq![sep] + b;
    if b.len() == 0 {
        assert(whole.drop_last() =~= a);
        assert(whole.last() == sep);
        assert(b =~= Seq::<char>::empty());
    } else {
        let init = b.drop_last();
        assert(b[b.len() - 1] == b.last());
        assert forall|c: char| init.contains(c) implies b.contains(c) by {
            let i = choose|i: int| 0 <= i < init.len() && init[i] == c;
            assert(b[i] == c);
        }
        lemma_split_append(a, init, sep);
        assert(b.contains(b.last()));
        assert(whole.drop_last() =~= a + seq![sep] + init);
        assert(whole.last() == b.last());
        assert(init.push(b.last()) =~= b);
        let before = split(a, sep).push(init);
        assert(before.update(before.len() - 1, b) =~= split(a, sep).push(b));
    }
}

/// No piece of a split text holds the separator.
pub proof fn lemma_split_pieces_plain(s: Seq<char>, sep: char)
    ensures
        forall|k: int| 0 <= k < split(s, sep).len() ==> !(#[trigger] split(s, sep)[k]).contains(sep),
    decreases s.len(),
{
    if s.len() > 0 {
        let before = split(s.drop_last(), sep);
        lemma_split_pieces_plain(s.drop_last(), sep);
        lemma_split_nonempty(s.drop_last(), sep);
        assert forall|k: int| 0 <= k < split(s, sep).len() implies !(#[trigger] split(s, sep)[k]).contains(
            sep,
        ) by {
            let piece = split(s, sep)[k];
            if piece.contains(sep) {
                let i = choose|i: int| 0 <= i < piece.len() && piece[i] == sep;
                if s.last() == sep {
                    assert(k < before.len());
                    assert(before[k].contains(sep));
                } else if k < before.len() - 1 {
                    assert(before[k].contains(sep));
                } else {
                    assert(piece == before.last().push(s.last()));
                    assert(i < before.last().len());
                    assert(before.last()[i] == sep);
                    assert(before[before.len() - 1].contains(sep));
                }
            }
        }
    }
}

/// Joining the pieces of a split text with the separator gives the text
/// back.
pub proof fn lemma_split_joins_back(s: Seq<char>, sep: char)
    ensures
        joined(split(s, sep), seq![sep]) == s,
    decreases s.len(),
{
    if s.len() == 0 {
        assert(joined(split(s, sep), seq![sep]) =~= s);
    } else {
        let t = s.drop_last();
        let before = split(t, sep);
        let after = split(s, sep);
        lemma_split_joins_back(t, sep);
        lemma_split_nonempty(t, sep);
        assert(t.push(s.last()) =~= s);
        if s.last() == sep {
            assert(after.drop_last() =~= before);
            assert(joined(after, seq![sep]) =~= t + seq![sep] + Seq::<char>::empty());
            assert(t + seq![sep] + Seq::<char>::empty() =~= s);
        } else if before.len() == 1 {
            assert(joined(before, seq![sep]) == before[0]);
            assert(after[0] == before[0].push(s.last()));
        } else {
            assert(after.drop_last() =~= before.drop_last());
            assert(after.last() == before.last().push(s.last()));
            assert(joined(before, seq![sep]) == joined(before.drop_last(), seq![sep]) + seq![sep]
                + before.last());
            assert(joined(after, seq![sep]) =~= joined(before, seq![sep]).push(s.last()));
        }
    }
}

/// Splits `s` at every `sep`.
pub fn split_text(s: &str, sep: char) -> (pieces: Vec<String>)
    ensures
        texts(pieces@) == split(s@, sep),
{
    let n: usize = s.unicode_len();
    let mut pieces: Vec<String> = Vec::new();
    let mut start: usize = 0;
    let mut i: usize = 0;
    proof {
        assert(s@.take(0) =~= Seq::<char>::empty());
        assert(s@.subrange(0, 0) =~= Seq::<char>::empty());
        assert(texts(pieces@) =~= split(s@.take(0), sep).drop_last());
    }
    while i < n
        invariant
            n == s@.len(),
            start <= i <= n,
            split(s@.take(i as int), sep).len() >= 1,
            texts(pieces@) == split(s@.take(i as int), sep).drop_last(),
            split(s@.take(i as int), sep).last() == s@.subrange(start as int, i as int),
        decreases n - i,
    {
        let c = s.get_char(i);
        proof {
            let t = s@.take(i as int);
            let t1 = s@.take(i as int + 1);
            assert(t1.drop_last() =~= t);
            assert(t1.last() == c);
            lemma_split_nonempty(t1, sep);
        }
        if c == sep {
            let piece = s.substring_char(start, i).to_owned();
            let ghost before = pieces@;
            pieces.push(piece);
            start = i + 1;
            proof {
                let t = s@.take(i as int);
                let t1 = s@.take(i as int + 1);
                assert(s@.subrange(start as int, i as int + 1) =~= Seq::<char>::empty());
                assert(texts(pieces@) =~= texts(before).push(piece@));
                assert(split(t, sep) =~= split(t, sep).drop_last().push(split(t, sep).last()));
                assert(split(t1, sep).drop_last() =~= split(t, sep));
            }
        } else {
            proof {
                let t = s@.take(i as int);
                let t1 = s@.take(i as int + 1);
                assert(s@.subrange(start as int, i as int).push(c) =~= s@.subrange(
                    start as int,
                    i as int + 1,
                ));
                assert(split(t1, sep).drop_last() =~= split(t, sep).drop_last());
            }
        }
        i = i + 1;
    }
    let piece = s.substring_char(start, n).to_owned();
    let ghost before = pieces@;
    pieces.push(piece);
    proof {
        assert(s@.take(n as int) =~= s@);
        assert(texts(pieces@) =~= texts(before).push(piece@));
        assert(split(s@, sep) =~= split(s@, sep).drop_last().push(split(s@, sep).last()));
    }
    pieces
}

/// The decimal digit for a value below ten.
pub open spec fn digit(d: int) -> char {
    if d == 0 {
        '0'
    } else if d == 1 {
        '1'
    } else if d == 2 {
        '2'
    } else if d == 3 {
        '3'
    } else if d == 4 {
        '4'
    } else if d == 5 {
        '5'
    } else if d == 6 {
        '6'
    } else if d == 7 {
        '7'
    } else if d == 8 {
        '8'
    } else {
        '9'
    }
}

/// The decimal numeral of a natural number: no sign, no leading zero, no
/// separators.
pub open spec fn decimal(n: nat) -> Seq<char>
    decreases n,
{
    if n < 10 {
        seq![digit(n as int)]
    } else {
        decimal(n / 10).push(digit((n % 10) as int))
    }
}

/// The decimal numeral of an integer, with a leading minus sign below zero.
pub open spec fn signed_decimal(n: int) -> Seq<char> {
    if n < 0 {
        seq!['-'] + decimal((-n) as nat)
    } else {
        decimal(n as nat)
    }
}

/// A numeral has at least one character, and none of them is a minus or an
/// equals sign.
pub proof fn lemma_decimal_shape(n: nat)
    ensures
        decimal(n).len() >= 1,
        forall|i: int| 0 <= i < decimal(n).len() ==> decimal(n)[i] != '-' && decimal(n)[i] != '=',
    decreases n,
{
    if n >= 10 {
        lemma_decimal_shape(n / 10);
    }
}

/// Different numbers have different numerals.
pub proof fn lemma_decimal_injective(a: nat, b: nat)
    requires
        decimal(a) == decimal(b),
    ensures
        a == b,
    decreases a,
{
    lemma_decimal_shape(a / 10);
    lemma_decimal_shape(b / 10);
    if a >= 10 && b >= 10 {
        let da = decimal(a / 10);
        let db = decimal(b / 10);
        let la = digit((a % 10) as int);
        let lb = digit((b % 10) as int);
        assert(decimal(a) == da.push(la));
        assert(decimal(b) == db.push(lb));
        assert(da.push(la).drop_last() =~= da);
        assert(db.push(lb).drop_last() =~= db);
        assert(da.push(la).last() == la);
        assert(db.push(lb).last() == lb);
        assert(da == db);
        lemma_decimal_injective(a / 10, b / 10);
        assert(la == lb);
        assert(a % 10 == b % 10);
        assert(a == 10 * (a / 10) + a % 10);
        assert(b == 10 * (b / 10) + b % 10);
    } else if a < 10 && b < 10 {
        assert(decimal(a)[0] == digit(a as int));
        assert(decimal(b)[0] == digit(b as int));
    } else if a < 10 {
        assert(decimal(a).len() == 1);
        assert(decimal(b).len() == decimal(b / 10).len() + 1);
    } else {
        assert(decimal(b).len() == 1);
        assert(decimal(a).len() == decimal(a / 10).len() + 1);
    }
}

/// Different integers have different signed numerals.
pub proof fn lemma_signed_decimal_injective(a: int, b: int)
    requires
        signed_decimal(a) == signed_decimal(b),
    ensures
        a == b,
{
    if a < 0 {
        lemma_decimal_shape((-a) as nat);
    } else {
        lemma_decimal_shape(a as nat);
    }
    if b < 0 {
        lemma_decimal_shape((-b) as nat);
    } else {
        lemma_decimal_shape(b as nat);
    }
    if a < 0 && b < 0 {
        let da = decimal((-a) as nat);
        let db = decimal((-b) as nat);
        assert((seq!['-'] + da).skip(1) =~= da);
        assert((seq!['-'] + db).skip(1) =~= db);
        lemma_decimal_injective((-a) as nat, (-b) as nat);
    } else if a >= 0 && b >= 0 {
        lemma_decimal_injective(a as nat, b as nat);
    } else if a < 0 {
        assert(signed_decimal(a)[0] == '-');
        assert(signed_decimal(b)[0] == decimal(b as nat)[0]);
    } else {
        assert(signed_decimal(b)[0] == '-');
        assert(signed_decimal(a)[0] == decimal(a as nat)[0]);
    }
}

/// A signed numeral is not empty and holds no equals sign.
pub proof fn lemma_signed_decimal_shape(n: int)
    ensures
        signed_decimal(n).len() >= 1,
        forall|i: int| 0 <= i < signed_decimal(n).len() ==> signed_decimal(n)[i] != '=',
{
    if n < 0 {
        lemma_decimal_shape((-n) as nat);
    } else {
        lemma_decimal_shape(n as nat);
    }
}

/// The digit for a value below ten as a string of one character.
fn digit_text(d: u8) -> (r: &'static str)
    requires
        d < 10,
    ensures
        r@ == seq![digit(d as int)],
{
    proof {
        reveal_strlit("0");
        reveal_strlit("1");
        reveal_strlit("2");
        reveal_strlit("3");
        reveal_strlit("4");
        reveal_strlit("5");
        reveal_strlit("6");
        reveal_strlit("7");
        reveal_strlit("8");
        reveal_strlit("9");
    }
    let r = if d == 0 {
        "0"
    } else if d == 1 {
        "1"
    } else if d == 2 {
        "2"
    } else if d == 3 {
        "3"
    } else if d == 4 {
        "4"
    } else if d == 5 {
        "5"
    } else if d == 6 {
        "6"
    } else if d == 7 {
        "7"
    } else if d == 8 {
        "8"
    } else {
        "9"
    };
    assert(r@ =~= seq![digit(d as int)]);
    r
}

/// Appends the decimal numeral of `n` to `out`.
pub fn append_decimal(out: &mut String, n: u128)
    ensures
        final(out)@ == old(out)@ + decimal(n as nat),
    decreases n,
{
    if n >= 10 {
        append_decimal(out, n / 10);
    }
    let d: u8 = (n % 10) as u8;
    out.append(digit_text(d));
    proof {
        if n >= 10 {
            assert(final(out)@ =~= old(out)@ + decimal(n as nat));
        } else {
            assert(final(out)@ =~= old(out)@ + decimal(n as nat));
        }
    }
}

/// The decimal numeral of `n` as a string.
pub fn decimal_text(n: i128) -> (r: String)
    ensures
        r@ == signed_decimal(n as int),
{
    let mut out = String::new();
    if n < 0 {
        proof {
            reveal_strlit("-");
        }
        out.append("-");
        let below: u128 = (-(n + 1)) as u128;
        append_decimal(&mut out, below + 1);
        assert(out@ =~= signed_decimal(n as int));
    } else {
        append_decimal(&mut out, n as u128);
        assert(out@ =~= signed_decimal(n as int));
    }
    out
}

/// Tells whether `s` begins with `prefix`.
pub fn has_prefix(s: &str, prefix: &str) -> (r: bool)
    ensures
        r == prefix@.is_prefix_of(s@),
{
    let n: usize = s.unicode_len();
    let m: usize = prefix.unicode_len();
    if m > n {
        return false;
    }
    let mut i: usize = 0;
    while i < m
        invariant
            n == s@.len(),
            m == prefix@.len(),
            m <= n,
            i <= m,
            forall|j: int| 0 <= j < i ==> s@[j] == prefix@[j],
        decreases m - i,
    {
        if s.get_char(i) != prefix.get_char(i) {
            proof {
                assert(s@.subrange(0, m as int)[i as int] == s@[i as int]);
            }
            return false;
        }
        i = i + 1;
    }
    proof {
        assert(prefix@ =~= s@.subrange(0, m as int));
    }
    true
}

/// What is left of `s` after its first `skip` characters.
pub fn text_after(s: &str, skip: usize) -> (r: String)
    requires
        skip <= s@.len(),
    ensures
        r@ == s@.skip(skip as int),
{
    let n: usize = s.unicode_len();
    let r = s.substring_char(skip, n).to_owned();
    proof {
        assert(r@ =~= s@.skip(skip as int));
    }
    r
}

/// Writes the pieces one after another with `sep` between neighbours.
pub fn join_text(parts: &Vec<&str>, sep: &str) -> (r: String)
    ensures
        r@ == joined(slices(parts@), sep@),
{
    let mut out = String::new();
    let mut i: usize = 0;
    proof {
        assert(slices(parts@).take(0) =~= Seq::<Seq<char>>::empty());
    }
    while i < parts.len()
        invariant
            i <= parts.len(),
            out@ == joined(slices(parts@).take(i as int), sep@),
        decreases parts.len() - i,
    {
        proof {
            let all = slices(parts@);
            assert(all.take(i as int + 1).drop_last() =~= all.take(i as int));
            assert(all.take(i as int + 1).last() == parts@[i as int]@);
            if i == 0 {
                assert(all.take(1)[0] == parts@[0]@);
            }
        }
        if i > 0 {
            out.append(sep);
        }
        out.append(parts[i]);
        proof {
            assert(out@ =~= joined(slices(parts@).take(i as int + 1), sep@));
        }
        i = i + 1;
    }
    proof {
        assert(slices(parts@).take(parts.len() as int) =~= slices(parts@));
    }
    out
}

/// `s` with every occurrence of `from`, taken from left to right without
/// overlap, replaced by `to`.
pub open spec fn replaced(s: Seq<char>, from: Seq<char>, to: Seq<char>) -> Seq<char>
    decreases s.len(),
{
    if s.len() == 0 || from.len() == 0 {
        s
    } else if from.is_prefix_of(s) {
        to + replaced(s.skip(from.len() as int), from, to)
    } else {
        seq![s[0]] + replaced(s.skip(1), from, to)
    }
}

/// `str::replace` with a string pattern. Trusted: the result is the text
/// with each match of the non-empty pattern, found left to right without
/// overlap, replaced.
#[verifier::external_body]
pub(crate) fn replace_all(s: &str, from: &str, to: &str) -> (r: String)
    requires
        from@.len() > 0,
    ensures
        r@ == replaced(s@, from@, to@),
{
    s.replace(from, to)
}

/// The lower-case form of a text as Unicode defines it.
pub uninterp spec fn lowercase(s: Seq<char>) -> Seq<char>;

/// `str::to_lowercase`. Trusted: the result is the lower-case form of the
/// argument, a function of the text alone.
#[verifier::external_body]
pub(crate) fn to_lowercase(s: &str) -> (r: String)
    ensures
        r@ == lowercase(s@),
{
    s.to_lowercase()
}


} // verus!
