use vstd::prelude::*;

verus! {

/// An ASCII decimal digit.
pub open spec fn is_digit(c: char) -> bool {
    '0' <= c && c <= '9'
}

/// The number that the digit `c` stands for.
pub open spec fn digit_value(c: char) -> nat {
    (c as int - '0' as int) as nat
}

/// The pieces of `s` between the dots, left to right, as `str::split('.')`
/// yields them: there is always at least one, and `n` dots give `n + 1`.
pub open spec fn dot_components(s: Seq<char>) -> Seq<Seq<char>>
    decreases s.len(),
{
    if s.len() == 0 {
        seq![Seq::empty()]
    } else {
        let parts = dot_components(s.drop_last());
        if s.last() == '.' {
            parts.push(Seq::empty())
        } else {
            parts.update(parts.len() - 1, parts.last().push(s.last()))
        }
    }
}

/// The longest prefix of `p` made of digits only (the first piece of
/// `p` split at each non-digit).
pub open spec fn leading_digits(p: Seq<char>) -> Seq<char>
    decreases p.len(),
{
    if p.len() == 0 {
        p
    } else {
        let d = leading_digits(p.drop_last());
        if d.len() == p.len() - 1 && is_digit(p.last()) {
            p
        } else {
            d
        }
    }
}

/// The number that a string of decimal digits denotes (0 for no digits).
pub open spec fn decimal_value(d: Seq<char>) -> nat
    decreases d.len(),
{
    if d.len() == 0 {
        0
    } else {
        decimal_value(d.drop_last()) * 10 + digit_value(d.last())
    }
}

/// The number of one version component: its leading digits read in
/// decimal, or 0 where there are none or they do not fit in a `u64`.
pub open spec fn component_number(p: Seq<char>) -> u64 {
    let d = leading_digits(p);
    if 0 < d.len() && decimal_value(d) <= u64::MAX {
        decimal_value(d) as u64
    } else {
        0
    }
}

/// The number of the `k`-th component, 0 where there is none.
pub open spec fn number_at(parts: Seq<Seq<char>>, k: int) -> u64 {
    if 0 <= k < parts.len() {
        component_number(parts[k])
    } else {
        0
    }
}

/// The (major, minor, micro) triple that a version string advertises.
pub open spec fn version_triple(s: Seq<char>) -> (u64, u64, u64) {
    let parts = dot_components(s);
    (number_at(parts, 0), number_at(parts, 1), number_at(parts, 2))
}

proof fn lemma_components_nonempty(s: Seq<char>)
    ensures
        dot_components(s).len() >= 1,
    decreases s.len(),
{
    if s.len() > 0 {
        lemma_components_nonempty(s.drop_last());
    }
}

proof fn lemma_leading_digits_prefix(p: Seq<char>)
    ensures
        leading_digits(p).len() <= p.len(),
        leading_digits(p) == p.take(leading_digits(p).len() as int),
    decreases p.len(),
{
    if p.len() > 0 {
        lemma_leading_digits_prefix(p.drop_last());
        let d = leading_digits(p.drop_last());
        assert(p.drop_last().take(d.len() as int) =~= p.take(d.len() as int));
        assert(p.take(p.len() as int) =~= p);
    }
}

proof fn lemma_decimal_value_grows(d: Seq<char>, c: char)
    requires
        is_digit(c),
    ensures
        decimal_value(d.push(c)) == decimal_value(d) * 10 + digit_value(c),
        decimal_value(d.push(c)) >= decimal_value(d),
{
    assert(d.push(c).drop_last() =~= d);
}

/// The state of the scan over the component being read: whether every
/// character so far is a digit, the value of the leading digits (or
/// whether it exceeds `u64::MAX`), and whether there is any digit.
spec fn scan_ok(cur: Seq<char>, all_digits: bool, any_digit: bool, value: u64, too_big: bool) -> bool {
    let d = leading_digits(cur);
    &&& all_digits == (d.len() == cur.len())
    &&& any_digit == (d.len() > 0)
    &&& (too_big ==> decimal_value(d) > u64::MAX)
    &&& (!too_big ==> decimal_value(d) == value)
}

spec fn finished_ok(parts: Seq<Seq<char>>, k: int, n0: u64, n1: u64, n2: u64) -> bool {
    &&& (if k > 0 { n0 == component_number(parts[0]) } else { n0 == 0 })
    &&& (if k > 1 { n1 == component_number(parts[1]) } else { n1 == 0 })
    &&& (if k > 2 { n2 == component_number(parts[2]) } else { n2 == 0 })
}

/// Decodes a version string into its (major, minor, micro) triple. The
/// components are the pieces between dots; each gives the number of its
/// leading ASCII digits, and a missing component, one without leading
/// digits, or one whose number does not fit in a `u64` gives 0.
pub fn parse_pkg_version(version: &str) -> (t: (u64, u64, u64))
    ensures
        t == version_triple(version@),
{
    let mut k: usize = 0;
    let mut n0: u64 = 0;
    let mut n1: u64 = 0;
    let mut n2: u64 = 0;
    let mut all_digits = true;
    let mut any_digit = false;
    let mut value: u64 = 0;
    let mut too_big = false;
    let ghost mut seen: Seq<char> = Seq::empty();
    for ch in it: version.chars()
        invariant
            it.seq() == version@,
            seen == version@.take(it.index() as int),
            k <= 3,
            dot_components(seen).len() >= 1,
            k == (if dot_components(seen).len() - 1 < 3 { dot_components(seen).len() - 1 } else { 3 }),
            finished_ok(dot_components(seen), k as int, n0, n1, n2),
            scan_ok(dot_components(seen).last(), all_digits, any_digit, value, too_big),
    {
        let ghost before = seen;
        proof {
            seen = seen.push(ch);
            assert(seen =~= version@.take(it.index() + 1));
            assert(seen.drop_last() =~= before);
            lemma_components_nonempty(before);
        }
        if ch == '.' {
            let number = if any_digit && !too_big { value } else { 0 };
            if k == 0 {
                n0 = number;
            } else if k == 1 {
                n1 = number;
            } else if k == 2 {
                n2 = number;
            }
            if k < 3 {
                k = k + 1;
            }
            all_digits = true;
            any_digit = false;
            value = 0;
            too_big = false;
            proof {
                assert(dot_components(seen) == dot_components(before).push(Seq::empty()));
                assert(leading_digits(Seq::<char>::empty()) == Seq::<char>::empty());
            }
        } else {
            let ghost cur = dot_components(before).last();
            proof {
                assert(dot_components(seen).last() == cur.push(ch));
                assert(cur.push(ch).drop_last() =~= cur);
                lemma_leading_digits_prefix(cur);
            }
            if all_digits && '0' <= ch && ch <= '9' {
                let digit = (ch as u32 - '0' as u32) as u64;
                proof {
                    assert(leading_digits(cur.push(ch)) == cur.push(ch));
                    assert(leading_digits(cur) == cur);
                    lemma_decimal_value_grows(cur, ch);
                }
                if !too_big && value <= (u64::MAX - digit) / 10 {
                    proof {
                        assert(value * 10 + digit <= u64::MAX) by (nonlinear_arith)
                            requires value <= (u64::MAX - digit) / 10, digit <= 9;
                    }
                    value = value * 10 + digit;
                } else {
                    proof {
                        if !too_big {
                            assert(value * 10 + digit > u64::MAX) by (nonlinear_arith)
                                requires value > (u64::MAX - digit) / 10, digit <= 9;
                        }
                    }
                    too_big = true;
                }
                any_digit = true;
            } else {
                proof {
                    assert(leading_digits(cur.push(ch)) == leading_digits(cur));
                }
                all_digits = false;
            }
        }
    }
    proof {
        assert(seen =~= version@);
        lemma_components_nonempty(version@);
    }
    let number = if any_digit && !too_big { value } else { 0 };
    if k == 0 {
        n0 = number;
    } else if k == 1 {
        n1 = number;
    } else if k == 2 {
        n2 = number;
    }
    (n0, n1, n2)
}


/// The ASCII digit for `d` (meant for `d < 10`).
pub open spec fn digit_char(d: nat) -> char {
    (d + 48) as char
}

/// The decimal text of `n`, without leading zeros (as `u64`'s `Display`).
pub open spec fn decimal_text(n: nat) -> Seq<char>
    decreases n,
{
    if n < 10 {
        seq![digit_char(n)]
    } else {
        decimal_text(n / 10).push(digit_char(n % 10))
    }
}

/// The version string "major.minor.micro" in decimal.
pub open spec fn version_text(major: u64, minor: u64, micro: u64) -> Seq<char> {
    decimal_text(major as nat) + seq!['.'] + decimal_text(minor as nat) + seq!['.'] + decimal_text(
        micro as nat,
    )
}

fn digit_text(d: u64) -> (s: &'static str)
    requires
        d < 10,
    ensures
        s@ == seq![digit_char(d as nat)],
{
    if d == 0 {
        proof { reveal_strlit("0"); }
        "0"
    } else if d == 1 {
        proof { reveal_strlit("1"); }
        "1"
    } else if d == 2 {
        proof { reveal_strlit("2"); }
        "2"
    } else if d == 3 {
        proof { reveal_strlit("3"); }
        "3"
    } else if d == 4 {
        proof { reveal_strlit("4"); }
        "4"
    } else if d == 5 {
        proof { reveal_strlit("5"); }
        "5"
    } else if d == 6 {
        proof { reveal_strlit("6"); }
        "6"
    } else if d == 7 {
        proof { reveal_strlit("7"); }
        "7"
    } else if d == 8 {
        proof { reveal_strlit("8"); }
        "8"
    } else {
        proof { reveal_strlit("9"); }
        "9"
    }
}

/// The decimal text of `n`.
pub fn decimal(n: u64) -> (s: String)
    ensures
        s@ == decimal_text(n as nat),
    decreases n,
{
    if n < 10 {
        String::from_str(digit_text(n))
    } else {
        let mut s = decimal(n / 10);
        s.append(digit_text(n % 10));
        s
    }
}

proof fn lemma_decimal_text_digits(n: nat)
    ensures
        decimal_text(n).len() > 0,
        forall|i: int| 0 <= i < decimal_text(n).len() ==> is_digit(#[trigger] decimal_text(n)[i]),
        leading_digits(decimal_text(n)) == decimal_text(n),
        decimal_value(decimal_text(n)) == n,
    decreases n,
{
    let t = decimal_text(n);
    assert(digit_value(digit_char(n % 10)) == n % 10);
    if n < 10 {
        assert(t.drop_last() =~= Seq::<char>::empty());
        assert(leading_digits(t.drop_last()) == t.drop_last());
        assert(decimal_value(t) == decimal_value(t.drop_last()) * 10 + digit_value(t.last()));
    } else {
        lemma_decimal_text_digits(n / 10);
        let u = decimal_text(n / 10);
        assert(t.drop_last() =~= u);
        assert(t.last() == digit_char(n % 10));
        assert(decimal_value(t) == decimal_value(u) * 10 + digit_value(t.last()));
        assert(decimal_value(t) == (n / 10) * 10 + n % 10);
    }
}

proof fn lemma_components_extend(p: Seq<char>, x: Seq<char>)
    requires
        forall|i: int| 0 <= i < x.len() ==> #[trigger] x[i] != '.',
    ensures
        dot_components(p + x) == dot_components(p).update(
            dot_components(p).len() - 1,
            dot_components(p).last() + x,
        ),
    decreases x.len(),
{
    lemma_components_nonempty(p);
    if x.len() == 0 {
        assert(p + x =~= p);
        assert(dot_components(p).last() + x =~= dot_components(p).last());
        assert(dot_components(p).update(dot_components(p).len() - 1, dot_components(p).last())
            =~= dot_components(p));
    } else {
        let y = x.drop_last();
        lemma_components_extend(p, y);
        assert((p + x).drop_last() =~= p + y);
        assert((p + x).last() == x.last());
        assert((dot_components(p).last() + y).push(x.last()) =~= dot_components(p).last() + x);
        assert(dot_components(p + x) =~= dot_components(p).update(
            dot_components(p).len() - 1,
            dot_components(p).last() + x,
        ));
    }
}

proof fn lemma_components_dot(p: Seq<char>)
    ensures
        dot_components(p + seq!['.']) == dot_components(p).push(Seq::empty()),
{
    assert((p + seq!['.']).drop_last() =~= p);
}

/// A version string written "major.minor.micro" in decimal is decoded to
/// exactly that triple.
pub proof fn lemma_version_roundtrip(major: u64, minor: u64, micro: u64)
    ensures
        version_triple(version_text(major, minor, micro)) == (major, minor, micro),
{
    let a = decimal_text(major as nat);
    let b = decimal_text(minor as nat);
    let c = decimal_text(micro as nat);
    lemma_decimal_text_digits(major as nat);
    lemma_decimal_text_digits(minor as nat);
    lemma_decimal_text_digits(micro as nat);
    let e = Seq::<char>::empty();
    assert(e + a =~= a);
    lemma_components_extend(e, a);
    assert(dot_components(a) =~= seq![a]);
    lemma_components_dot(a);
    let ad = a + seq!['.'];
    lemma_components_extend(ad, b);
    assert(dot_components(ad + b) =~= seq![a, b]);
    let adbd = ad + b + seq!['.'];
    lemma_components_dot(ad + b);
    lemma_components_extend(adbd, c);
    assert(dot_components(adbd + c) =~= seq![a, b, c]);
    assert(version_text(major, minor, micro) =~= adbd + c);
}


proof fn lemma_leading_digits_all(d: Seq<char>)
    requires
        forall|i: int| 0 <= i < d.len() ==> '0' <= #[trigger] d[i] && d[i] <= '9',
    ensures
        leading_digits(d) == d,
    decreases d.len(),
{
    if d.len() > 0 {
        lemma_leading_digits_all(d.drop_last());
    }
}

proof fn lemma_leading_digits_cut(d: Seq<char>, u: Seq<char>)
    requires
        forall|i: int| 0 <= i < d.len() ==> '0' <= #[trigger] d[i] && d[i] <= '9',
        u.len() > 0 ==> !is_digit(u[0]),
    ensures
        leading_digits(d + u) == d,
    decreases u.len(),
{
    lemma_leading_digits_all(d);
    if u.len() == 0 {
        assert(d + u =~= d);
    } else {
        let v = u.drop_last();
        assert((d + u).drop_last() =~= d + v);
        if v.len() > 0 {
            assert(v[0] == u[0]);
        }
        lemma_leading_digits_cut(d, v);
        if u.len() == 1 {
            assert((d + u).last() == u[0]);
        }
    }
}

proof fn lemma_components_keep_prefix(x: Seq<char>, y: Seq<char>)
    ensures
        dot_components(x + y).len() >= dot_components(x).len(),
        forall|i: int|
            0 <= i < dot_components(x).len() - 1 ==> #[trigger] dot_components(x + y)[i]
                == dot_components(x)[i],
    decreases y.len(),
{
    lemma_components_nonempty(x);
    if y.len() == 0 {
        assert(x + y =~= x);
    } else {
        let z = y.drop_last();
        lemma_components_keep_prefix(x, z);
        lemma_components_nonempty(x + z);
        assert((x + y).drop_last() =~= x + z);
    }
}

/// The index of the first dot of `s` (its length where there is none).
spec fn first_dot(s: Seq<char>) -> int
    decreases s.len(),
{
    if s.len() == 0 || s[0] == '.' {
        0
    } else {
        1 + first_dot(s.drop_first())
    }
}

proof fn lemma_first_dot(s: Seq<char>)
    ensures
        0 <= first_dot(s) <= s.len(),
        forall|i: int| 0 <= i < first_dot(s) ==> #[trigger] s[i] != '.',
        first_dot(s) < s.len() ==> s[first_dot(s)] == '.',
    decreases s.len(),
{
    if s.len() > 0 && s[0] != '.' {
        lemma_first_dot(s.drop_first());
        assert forall|i: int| 0 <= i < first_dot(s) implies #[trigger] s[i] != '.' by {
            if i > 0 {
                assert(s[i] == s.drop_first()[i - 1]);
            }
        }
    }
}

/// Each component is read by its leading digits alone: a version string
/// made of three runs of decimal digits separated by dots, followed by any
/// text that does not start with a digit or a dot (a pre-release or build
/// suffix such as "-beta"), decodes to the values of the three runs, where
/// they fit in a `u64`.
pub proof fn lemma_leading_digits_decide(da: Seq<char>, db: Seq<char>, dc: Seq<char>, s: Seq<char>)
    requires
        da.len() > 0,
        db.len() > 0,
        dc.len() > 0,
        forall|i: int| 0 <= i < da.len() ==> '0' <= #[trigger] da[i] && da[i] <= '9',
        forall|i: int| 0 <= i < db.len() ==> '0' <= #[trigger] db[i] && db[i] <= '9',
        forall|i: int| 0 <= i < dc.len() ==> '0' <= #[trigger] dc[i] && dc[i] <= '9',
        decimal_value(da) <= u64::MAX,
        decimal_value(db) <= u64::MAX,
        decimal_value(dc) <= u64::MAX,
        s.len() > 0 ==> !('0' <= s[0] && s[0] <= '9') && s[0] != '.',
    ensures
        version_triple(da + seq!['.'] + db + seq!['.'] + dc + s) == (
            decimal_value(da) as u64,
            decimal_value(db) as u64,
            decimal_value(dc) as u64,
        ),
{
    let e = Seq::<char>::empty();
    assert(e + da =~= da);
    lemma_components_extend(e, da);
    assert(dot_components(da) =~= seq![da]);
    lemma_components_dot(da);
    let ad = da + seq!['.'];
    lemma_components_extend(ad, db);
    assert(dot_components(ad + db) =~= seq![da, db]);
    let adbd = ad + db + seq!['.'];
    lemma_components_dot(ad + db);
    lemma_first_dot(s);
    let j = first_dot(s);
    let s1 = s.take(j);
    let w = adbd + dc + s;
    assert(forall|i: int| 0 <= i < (dc + s1).len() ==> #[trigger] (dc + s1)[i] != '.');
    lemma_components_extend(adbd, dc + s1);
    assert(adbd + (dc + s1) =~= adbd + dc + s1);
    assert(dot_components(adbd + dc + s1) =~= seq![da, db, dc + s1]);
    if j < s.len() {
        let rest = s.skip(j);
        assert(w =~= (adbd + dc + s1) + rest);
        lemma_components_keep_prefix(adbd + dc + s1 + seq!['.'], rest.drop_first());
        assert(adbd + dc + s1 + seq!['.'] + rest.drop_first() =~= w);
        lemma_components_dot(adbd + dc + s1);
    } else {
        assert(s1 =~= s);
    }
    assert(dot_components(w)[0] == da);
    assert(dot_components(w)[1] == db);
    assert(dot_components(w)[2] == dc + s1);
    if s1.len() > 0 {
        assert(s1[0] == s[0]);
    }
    lemma_leading_digits_cut(dc, s1);
    lemma_leading_digits_all(da);
    lemma_leading_digits_all(db);
}

/// A version string written "major.minor.micro" in decimal and followed by
/// any suffix that starts with neither a digit nor a dot decodes to exactly
/// (major, minor, micro).
pub proof fn lemma_version_with_suffix(major: u64, minor: u64, micro: u64, s: Seq<char>)
    requires
        s.len() > 0 ==> !('0' <= s[0] && s[0] <= '9') && s[0] != '.',
    ensures
        version_triple(version_text(major, minor, micro) + s) == (major, minor, micro),
{
    lemma_decimal_text_digits(major as nat);
    lemma_decimal_text_digits(minor as nat);
    lemma_decimal_text_digits(micro as nat);
    let a = decimal_text(major as nat);
    let b = decimal_text(minor as nat);
    let c = decimal_text(micro as nat);
    lemma_leading_digits_decide(a, b, c, s);
    assert(version_text(major, minor, micro) + s =~= a + seq!['.'] + b + seq!['.'] + c + s);
}

} // verus!
