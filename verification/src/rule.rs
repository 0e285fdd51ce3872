//! Birth/survival rules and their textual `B<digits>/S<digits>` form.

use vstd::prelude::*;
use vstd::string::StrSliceExecFns;
use vstd::string::StringExecFns;

verus! {

/// A generalized-Life rule: the neighbor counts that make a dead cell come
/// alive, and the counts that let a live cell survive. Order and repetition
/// are kept as parsed; membership alone decides the rule's effect.
#[derive(Debug, PartialEq)]
pub struct Rule {
    pub birth_list: Vec<u8>,
    pub survival_list: Vec<u8>,
}

/// Whether `c` is a decimal digit, `'0'` to `'9'`.
pub open spec fn is_digit_char(c: char) -> bool {
    48 <= c as u32 <= 57
}

/// The numeric value of the decimal digit `c`.
pub open spec fn digit_val(c: char) -> u8 {
    (c as u32 - 48) as u8
}

/// Whether `c` has the Unicode `Alphabetic` property.
pub uninterp spec fn alphabetic(c: char) -> bool;

/// Relies on char::is_alphabetic: true exactly when the character has the
/// Unicode `Alphabetic` property, which no decimal digit and no `'/'` has.
#[verifier::external_body]
fn is_alphabetic_char(c: char) -> (r: bool)
    ensures
        r == alphabetic(c),
        is_digit_char(c) ==> !r,
        c == '/' ==> !r,
{
    c.is_alphabetic()
}

/// The state of the rule parser after the characters of `s` before `i`:
/// which section (`B` or `S`) is open, and the counts collected so far.
/// `None` means parsing has aborted and the default rule is returned.
/// A decimal digit is appended to the open section's list; a `B` or `S`
/// opens its section; any other character is skipped, except an alphabetic
/// one, which aborts. Any character while no section is open aborts too.
pub open spec fn parse_from(
    s: Seq<char>,
    i: int,
    in_birth: bool,
    in_survival: bool,
    births: Seq<u8>,
    survivals: Seq<u8>,
) -> Option<(Seq<u8>, Seq<u8>)>
    recommends
        0 <= i <= s.len(),
    decreases s.len() - i,
{
    if i < 0 || i >= s.len() {
        Some((births, survivals))
    } else {
        let c = s[i];
        if c == 'B' {
            parse_from(s, i + 1, true, false, births, survivals)
        } else if c == 'S' {
            parse_from(s, i + 1, false, true, births, survivals)
        } else if !in_birth && !in_survival {
            None
        } else if is_digit_char(c) {
            if in_birth {
                parse_from(s, i + 1, in_birth, in_survival, births.push(digit_val(c)), survivals)
            } else {
                parse_from(s, i + 1, in_birth, in_survival, births, survivals.push(digit_val(c)))
            }
        } else if c == '/' {
            parse_from(s, i + 1, in_birth, in_survival, births, survivals)
        } else if alphabetic(c) {
            None
        } else {
            parse_from(s, i + 1, in_birth, in_survival, births, survivals)
        }
    }
}

/// The birth and survival lists that parsing `s` yields: the collected
/// counts, or the default rule (births 3, survivals 2 and 3) if parsing
/// aborted.
pub open spec fn parse_rule(s: Seq<char>) -> (Seq<u8>, Seq<u8>) {
    match parse_from(s, 0, false, false, Seq::<u8>::empty(), Seq::<u8>::empty()) {
        Some(lists) => lists,
        None => (seq![3u8], seq![2u8, 3u8]),
    }
}

/// Every count in the list lies in [0, 8]: no cell has more than eight
/// neighbors.
pub open spec fn valid_counts(list: Seq<u8>) -> bool {
    forall|k: int| 0 <= k < list.len() ==> (#[trigger] list[k]) <= 8
}

/// The decimal digit character for `d`, 0 through 9.
pub open spec fn digit_char(d: int) -> char {
    if d == 0 {
        '0'
    } else if d == 1 {
        '1'
    } else if d == 2 {
        '2'
    } else if d == 3 {
        '3'
    } else if d == 4 {
        '4'
    } else if d == 5 {
        '5'
    } else if d == 6 {
        '6'
    } else if d == 7 {
        '7'
    } else if d == 8 {
        '8'
    } else {
        '9'
    }
}

/// The decimal digits of `v`, most significant first, as `u8::to_string`
/// renders them.
pub open spec fn decimal_chars(v: int) -> Seq<char>
    recommends
        0 <= v,
    decreases v,
{
    if v < 10 {
        seq![digit_char(v)]
    } else {
        decimal_chars(v / 10).push(digit_char(v % 10))
    }
}

/// The decimal renderings of the listed counts, in list order, with no
/// separators, no sorting and no de-duplication.
pub open spec fn digits_seq(list: Seq<u8>) -> Seq<char>
    decreases list.len(),
{
    if list.len() == 0 {
        Seq::<char>::empty()
    } else {
        decimal_chars(list[0] as int) + digits_seq(list.drop_first())
    }
}

/// The canonical textual form of a rule:
/// `"B" + births + "/S" + survivals`, each list in list order.
pub open spec fn rulestring_of(births: Seq<u8>, survivals: Seq<u8>) -> Seq<char> {
    seq!['B'] + digits_seq(births) + seq!['/', 'S'] + digits_seq(survivals)
}

/// Appends the single decimal digit `d` to `out`.
fn push_digit(out: &mut String, d: u8)
    requires
        d <= 9,
    ensures
        final(out)@ == old(out)@ + seq![digit_char(d as int)],
{
    let s: &str = if d == 0 {
        "0"
    } else if d == 1 {
        "1"
    } else if d == 2 {
        "2"
    } else if d == 3 {
        "3"
    } else if d == 4 {
        "4"
    } else if d == 5 {
        "5"
    } else if d == 6 {
        "6"
    } else if d == 7 {
        "7"
    } else if d == 8 {
        "8"
    } else {
        "9"
    };
    proof {
        reveal_strlit("0");
        reveal_strlit("1");
        reveal_strlit("2");
        reveal_strlit("3");
        reveal_strlit("4");
        reveal_strlit("5");
        reveal_strlit("6");
        reveal_strlit("7");
        reveal_strlit("8");
        reveal_strlit("9");
        assert(s@ =~= seq![digit_char(d as int)]);
    }
    out.append(s);
}

/// Appends the decimal rendering of `v` to `out`.
fn push_u8(out: &mut String, v: u8)
    ensures
        final(out)@ == old(out)@ + decimal_chars(v as int),
{
    if v >= 100 {
        let t = v / 10;
        push_digit(out, t / 10);
        push_digit(out, t % 10);
        push_digit(out, v % 10);
        proof {
            assert(decimal_chars(v as int) == decimal_chars(v as int / 10).push(
                digit_char(v as int % 10),
            ));
            assert(decimal_chars(v as int / 10) == decimal_chars(v as int / 10 / 10).push(
                digit_char((v as int / 10) % 10),
            ));
            assert(decimal_chars(v as int / 10 / 10) == seq![digit_char(v as int / 10 / 10)]);
            assert(final(out)@ =~= old(out)@ + decimal_chars(v as int));
        }
    } else if v >= 10 {
        push_digit(out, v / 10);
        push_digit(out, v % 10);
        proof {
            assert(decimal_chars(v as int) == decimal_chars(v as int / 10).push(
                digit_char(v as int % 10),
            ));
            assert(decimal_chars(v as int / 10) == seq![digit_char(v as int / 10)]);
            assert(final(out)@ =~= old(out)@ + decimal_chars(v as int));
        }
    } else {
        push_digit(out, v);
        proof {
            assert(final(out)@ =~= old(out)@ + decimal_chars(v as int));
        }
    }
}

/// Extending a list by one count appends that count's digits to the
/// rendered form.
proof fn lemma_digits_seq_push(list: Seq<u8>, v: u8)
    ensures
        digits_seq(list.push(v)) == digits_seq(list) + decimal_chars(v as int),
    decreases list.len(),
{
    if list.len() == 0 {
        assert(list.push(v)[0] == v);
        assert(list.push(v).drop_first() =~= Seq::<u8>::empty());
        assert(digits_seq(list.push(v)) == decimal_chars(v as int) + digits_seq(
            list.push(v).drop_first(),
        ));
        assert(digits_seq(list.push(v).drop_first()) == Seq::<char>::empty());
        assert(digits_seq(list.push(v)) =~= digits_seq(list) + decimal_chars(v as int));
    } else {
        lemma_digits_seq_push(list.drop_first(), v);
        assert(list.push(v)[0] == list[0]);
        assert(list.push(v).drop_first() =~= list.drop_first().push(v));
        assert(digits_seq(list.push(v)) == decimal_chars(list[0] as int) + digits_seq(
            list.drop_first().push(v),
        ));
        assert(digits_seq(list) == decimal_chars(list[0] as int) + digits_seq(list.drop_first()));
        assert((decimal_chars(list[0] as int) + digits_seq(list.drop_first())) + decimal_chars(
            v as int,
        ) =~= decimal_chars(list[0] as int) + (digits_seq(list.drop_first()) + decimal_chars(
            v as int,
        )));
        assert(digits_seq(list.push(v)) == digits_seq(list) + decimal_chars(v as int));
    }
}

/// Renders `rule` in its canonical textual form: `B`, the birth counts, `/S`,
/// the survival counts, each list in list order, not sorted, not
/// de-duplicated.
pub fn rule_string(rule: &Rule) -> (r: String)
    ensures
        r@ == rulestring_of(rule.birth_list@, rule.survival_list@),
{
    let mut out = String::new();
    proof {
        reveal_strlit("B");
        reveal_strlit("/S");
    }
    out.append("B");
    proof {
        assert(out@ =~= seq!['B'] + digits_seq(rule.birth_list@.take(0)));
    }
    let mut i: usize = 0;
    while i < rule.birth_list.len()
        invariant
            i <= rule.birth_list@.len(),
            out@ == seq!['B'] + digits_seq(rule.birth_list@.take(i as int)),
        decreases rule.birth_list@.len() - i,
    {
        let ghost pre = rule.birth_list@.take(i as int);
        push_u8(&mut out, rule.birth_list[i]);
        proof {
            lemma_digits_seq_push(pre, rule.birth_list@[i as int]);
            assert(rule.birth_list@.take(i as int + 1) =~= pre.push(rule.birth_list@[i as int]));
            assert(out@ =~= seq!['B'] + digits_seq(rule.birth_list@.take(i as int + 1)));
        }
        i += 1;
    }
    proof {
        assert(rule.birth_list@.take(rule.birth_list@.len() as int) =~= rule.birth_list@);
    }
    out.append("/S");
    proof {
        assert(out@ =~= seq!['B'] + digits_seq(rule.birth_list@) + seq!['/', 'S'] + digits_seq(
            rule.survival_list@.take(0),
        ));
    }
    let mut j: usize = 0;
    while j < rule.survival_list.len()
        invariant
            j <= rule.survival_list@.len(),
            out@ == seq!['B'] + digits_seq(rule.birth_list@) + seq!['/', 'S'] + digits_seq(
                rule.survival_list@.take(j as int),
            ),
        decreases rule.survival_list@.len() - j,
    {
        let ghost pre = rule.survival_list@.take(j as int);
        push_u8(&mut out, rule.survival_list[j]);
        proof {
            lemma_digits_seq_push(pre, rule.survival_list@[j as int]);
            assert(rule.survival_list@.take(j as int + 1) =~= pre.push(
                rule.survival_list@[j as int],
            ));
            assert(out@ =~= seq!['B'] + digits_seq(rule.birth_list@) + seq!['/', 'S'] + digits_seq(
                rule.survival_list@.take(j as int + 1),
            ));
        }
        j += 1;
    }
    proof {
        assert(rule.survival_list@.take(rule.survival_list@.len() as int) =~= rule.survival_list@);
    }
    out
}

/// The numeric values of a sequence of decimal digit characters.
pub open spec fn digit_vals(ds: Seq<char>) -> Seq<u8> {
    ds.map_values(|c: char| digit_val(c))
}

/// Every character of `ds` is a decimal digit.
pub open spec fn all_digit_chars(ds: Seq<char>) -> bool {
    forall|k: int| 0 <= k < ds.len() ==> is_digit_char(#[trigger] ds[k])
}

/// The characters of `ds` are strictly ascending: sorted, no duplicates.
pub open spec fn strictly_ascending(ds: Seq<char>) -> bool {
    forall|a: int, b: int|
        #![trigger ds[a], ds[b]]
        0 <= a < b < ds.len() ==> (ds[a] as u32) < (ds[b] as u32)
}

/// A canonical rule string: exactly `B`, a run of digits, `/S`, a run of
/// digits, each run sorted ascending with no duplicates.
pub open spec fn canonical_rulestring(s: Seq<char>) -> bool {
    exists|bd: Seq<char>, sd: Seq<char>|
        {
            &&& s == seq!['B'] + bd + seq!['/', 'S'] + sd
            &&& all_digit_chars(bd)
            &&& all_digit_chars(sd)
            &&& strictly_ascending(bd)
            &&& strictly_ascending(sd)
        }
}

/// The digit character of a digit's value is that character again.
proof fn lemma_digit_char_val(c: char)
    requires
        is_digit_char(c),
    ensures
        digit_val(c) <= 9,
        digit_char(digit_val(c) as int) == c,
{
}

/// Rendering the values of a digit run gives back exactly that run.
proof fn lemma_digits_seq_of_vals(ds: Seq<char>)
    requires
        all_digit_chars(ds),
    ensures
        digits_seq(digit_vals(ds)) == ds,
    decreases ds.len(),
{
    if ds.len() == 0 {
        assert(digit_vals(ds) =~= Seq::<u8>::empty());
        assert(digits_seq(digit_vals(ds)) =~= ds);
    } else {
        lemma_digits_seq_of_vals(ds.drop_first());
        lemma_digit_char_val(ds[0]);
        assert(digit_vals(ds)[0] == digit_val(ds[0]));
        assert(digit_vals(ds).len() == ds.len());
        assert(digits_seq(digit_vals(ds)) == decimal_chars(digit_vals(ds)[0] as int) + digits_seq(
            digit_vals(ds).drop_first(),
        ));
        assert(decimal_chars(digit_val(ds[0]) as int) == seq![digit_char(digit_val(ds[0]) as int)]);
        assert(digit_vals(ds).drop_first() =~= digit_vals(ds.drop_first()));
        assert(digits_seq(digit_vals(ds)) =~= ds);
    }
}

/// While the survival section is open and only digits remain, parsing
/// appends each digit's value to the survival list and accepts.
proof fn lemma_parse_survival_digits(s: Seq<char>, i: int, births: Seq<u8>, survivals: Seq<u8>)
    requires
        0 <= i <= s.len(),
        forall|k: int| i <= k < s.len() ==> is_digit_char(#[trigger] s[k]),
    ensures
        parse_from(s, i, false, true, births, survivals) == Some::<(Seq<u8>, Seq<u8>)>(
            (births, survivals + digit_vals(s.subrange(i, s.len() as int))),
        ),
    decreases s.len() - i,
{
    if i == s.len() {
        assert(s.subrange(i, s.len() as int) =~= Seq::<char>::empty());
        assert(digit_vals(Seq::<char>::empty()) =~= Seq::<u8>::empty());
        assert(survivals + Seq::<u8>::empty() =~= survivals);
    } else {
        let c = s[i];
        assert(is_digit_char(c));
        assert(c != 'B' && c != 'S');
        lemma_parse_survival_digits(s, i + 1, births, survivals.push(digit_val(c)));
        assert(survivals.push(digit_val(c)) + digit_vals(s.subrange(i + 1, s.len() as int))
            =~= survivals + digit_vals(s.subrange(i, s.len() as int)));
    }
}

/// While the birth section is open, parsing collects the rest of the birth
/// digits, crosses `/S`, and collects the survival digits.
proof fn lemma_parse_birth_run(
    bd: Seq<char>,
    sd: Seq<char>,
    i: int,
    births: Seq<u8>,
    survivals: Seq<u8>,
)
    requires
        all_digit_chars(bd),
        all_digit_chars(sd),
        1 <= i <= 1 + bd.len(),
    ensures
        parse_from(seq!['B'] + bd + seq!['/', 'S'] + sd, i, true, false, births, survivals)
            == Some::<(Seq<u8>, Seq<u8>)>(
            (births + digit_vals(bd.subrange(i - 1, bd.len() as int)), survivals + digit_vals(sd)),
        ),
    decreases 1 + bd.len() - i,
{
    let s = seq!['B'] + bd + seq!['/', 'S'] + sd;
    assert(s.len() == 3 + bd.len() + sd.len());
    if i == 1 + bd.len() {
        assert(s[i] == '/');
        assert(s[i + 1] == 'S');
        assert(parse_from(s, i, true, false, births, survivals) == parse_from(
            s,
            i + 1,
            true,
            false,
            births,
            survivals,
        ));
        assert(parse_from(s, i + 1, true, false, births, survivals) == parse_from(
            s,
            i + 2,
            false,
            true,
            births,
            survivals,
        ));
        assert forall|k: int| i + 2 <= k < s.len() implies is_digit_char(#[trigger] s[k]) by {
            assert(s[k] == sd[k - (i + 2)]);
        }
        lemma_parse_survival_digits(s, i + 2, births, survivals);
        assert(s.subrange(i + 2, s.len() as int) =~= sd);
        assert(bd.subrange(i - 1, bd.len() as int) =~= Seq::<char>::empty());
        assert(digit_vals(Seq::<char>::empty()) =~= Seq::<u8>::empty());
        assert(births + Seq::<u8>::empty() =~= births);
    } else {
        let c = s[i];
        assert(c == bd[i - 1]);
        assert(is_digit_char(c));
        assert(c != 'B' && c != 'S');
        assert(parse_from(s, i, true, false, births, survivals) == parse_from(
            s,
            i + 1,
            true,
            false,
            births.push(digit_val(c)),
            survivals,
        ));
        lemma_parse_birth_run(bd, sd, i + 1, births.push(digit_val(c)), survivals);
        assert(births.push(digit_val(c)) + digit_vals(bd.subrange(i, bd.len() as int)) =~= births
            + digit_vals(bd.subrange(i - 1, bd.len() as int)));
    }
}

/// Rendering the rule parsed from a canonical rule string gives back exactly
/// that string: `B`, digits sorted ascending without duplicates, `/S`,
/// digits sorted ascending without duplicates.
pub proof fn lemma_format_parse_round_trip(bd: Seq<char>, sd: Seq<char>)
    requires
        all_digit_chars(bd),
        all_digit_chars(sd),
        strictly_ascending(bd),
        strictly_ascending(sd),
    ensures
        ({
            let s = seq!['B'] + bd + seq!['/', 'S'] + sd;
            rulestring_of(parse_rule(s).0, parse_rule(s).1) == s
        }),
{
    let s = seq!['B'] + bd + seq!['/', 'S'] + sd;
    assert(s[0] == 'B');
    lemma_parse_birth_run(bd, sd, 1, Seq::<u8>::empty(), Seq::<u8>::empty());
    assert(bd.subrange(0, bd.len() as int) =~= bd);
    assert(Seq::<u8>::empty() + digit_vals(bd) =~= digit_vals(bd));
    assert(Seq::<u8>::empty() + digit_vals(sd) =~= digit_vals(sd));
    assert(parse_from(s, 0, false, false, Seq::<u8>::empty(), Seq::<u8>::empty()) == parse_from(
        s,
        1,
        true,
        false,
        Seq::<u8>::empty(),
        Seq::<u8>::empty(),
    ));
    assert(parse_rule(s) == (digit_vals(bd), digit_vals(sd)));
    lemma_digits_seq_of_vals(bd);
    lemma_digits_seq_of_vals(sd);
    assert(rulestring_of(digit_vals(bd), digit_vals(sd)) == s);
}

/// The same round trip, stated over the string alone: formatting the rule
/// parsed from a canonical rule string gives back exactly that string.
pub proof fn lemma_round_trip_canonical(s: Seq<char>)
    requires
        canonical_rulestring(s),
    ensures
        rulestring_of(parse_rule(s).0, parse_rule(s).1) == s,
{
    let (bd, sd) = choose|bd: Seq<char>, sd: Seq<char>|
        {
            &&& s == seq!['B'] + bd + seq!['/', 'S'] + sd
            &&& all_digit_chars(bd)
            &&& all_digit_chars(sd)
            &&& strictly_ascending(bd)
            &&& strictly_ascending(sd)
        };
    lemma_format_parse_round_trip(bd, sd);
}

impl Rule {
    /// The default rule: births on 3 neighbors, survival on 2 or 3
    /// (Conway's Game of Life, `B3/S23`).
    pub fn default() -> (r: Rule)
        ensures
            r.birth_list@ == seq![3u8],
            r.survival_list@ == seq![2u8, 3u8],
    {
        Rule { birth_list: vec![3], survival_list: vec![2, 3] }
    }

    /// Scans the rule string character by character and collects the birth
    /// and survival counts, falling back to the default rule on malformed
    /// input.
    pub fn from(rulestring: &str) -> (r: Rule)
        ensures
            (r.birth_list@, r.survival_list@) == parse_rule(rulestring@),
    {
        let ghost s = rulestring@;
        let n = rulestring.unicode_len();
        let mut in_born = false;
        let mut in_survival = false;
        let mut birth_list: Vec<u8> = Vec::new();
        let mut survival_list: Vec<u8> = Vec::new();
        let mut i: usize = 0;
        while i < n
            invariant
                0 <= i <= n,
                n == s.len(),
                s == rulestring@,
                parse_from(s, 0, false, false, Seq::<u8>::empty(), Seq::<u8>::empty())
                    == parse_from(s, i as int, in_born, in_survival, birth_list@, survival_list@),
            decreases n - i,
        {
            let ch = rulestring.get_char(i);
            let ghost pre_born = in_born;
            let ghost pre_survival = in_survival;
            if ch == 'B' {
                in_survival = false;
                in_born = true;
            } else if ch == 'S' {
                in_born = false;
                in_survival = true;
            } else if is_alphabetic_char(ch) {
                assert(parse_from(s, i as int, in_born, in_survival, birth_list@, survival_list@)
                    is None);
                return Rule::default();
            }
            if !in_born && !in_survival {
                assert(parse_from(s, i as int, in_born, in_survival, birth_list@, survival_list@)
                    is None);
                return Rule::default();
            }
            let u = ch as u32;
            if 48 <= u && u <= 57 {
                let d = (u - 48) as u8;
                if in_born {
                    birth_list.push(d);
                } else {
                    survival_list.push(d);
                }
            }
            i += 1;
        }
        proof {
            assert(parse_from(s, i as int, in_born, in_survival, birth_list@, survival_list@)
                == Some((birth_list@, survival_list@)));
        }
        Rule { birth_list, survival_list }
    }
}

} // verus!
