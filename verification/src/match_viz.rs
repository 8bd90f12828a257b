//! The pattern-matching screen: typed text is read as `Ok(n)` for an `i32` or `Err(msg)` for
//! `err:msg`, and the arm of
//! `match v { Ok(n) if n < 0, Ok(0), Ok(n) if n < 10, Ok(n), Err(e) }` that takes it is chosen.
use vstd::prelude::*;
use vstd::string::*;
use crate::text::{
    decimal, digit_char, is_white_space, pop_char, push_char, push_signed_decimal, signed_decimal,
    white_space,
};

verus! {

/// `s` without its leading white space.
pub open spec fn trim_start(s: Seq<char>) -> Seq<char>
    decreases s.len(),
{
    if s.len() > 0 && is_white_space(s[0]) {
        trim_start(s.drop_first())
    } else {
        s
    }
}

/// `s` without its trailing white space.
pub open spec fn trim_end(s: Seq<char>) -> Seq<char>
    decreases s.len(),
{
    if s.len() > 0 && is_white_space(s.last()) {
        trim_end(s.drop_last())
    } else {
        s
    }
}

/// `s` without leading and trailing white space, as `str::trim` gives it.
pub open spec fn trimmed(s: Seq<char>) -> Seq<char> {
    trim_end(trim_start(s))
}

/// The prefix that marks an error value.
pub open spec fn err_prefix() -> Seq<char> {
    seq!['e', 'r', 'r', ':']
}

/// Whether `c` is an ASCII digit.
pub open spec fn is_digit(c: char) -> bool {
    48 <= c as u32 <= 57
}

/// The number that a run of ASCII digits denotes.
pub open spec fn digits_value(d: Seq<char>) -> int
    decreases d.len(),
{
    if d.len() == 0 {
        0
    } else {
        digits_value(d.drop_last()) * 10 + (d.last() as u32 - 48)
    }
}

/// The digits after an optional sign.
pub open spec fn unsigned_part(t: Seq<char>) -> Seq<char> {
    if t.len() > 0 && (t[0] == '-' || t[0] == '+') {
        t.drop_first()
    } else {
        t
    }
}

/// What `str::parse::<i32>` gives: an optional `+` or `-`, then one or more ASCII digits,
/// whose value must fit in an `i32`.
pub open spec fn parse_i32(t: Seq<char>) -> Option<int> {
    let body = unsigned_part(t);
    let v = if t.len() > 0 && t[0] == '-' {
        -digits_value(body)
    } else {
        digits_value(body)
    };
    if body.len() == 0 || !(forall|i: int| 0 <= i < body.len() ==> is_digit(#[trigger] body[i])) {
        None
    } else if i32::MIN <= v <= i32::MAX {
        Some(v)
    } else {
        None
    }
}

/// Index of the arm that takes `Ok(n)`.
pub open spec fn ok_arm(n: int) -> int {
    if n < 0 {
        0
    } else if n == 0 {
        1
    } else if n < 10 {
        2
    } else {
        3
    }
}

/// The explanation shown for `Ok(n)`.
pub open spec fn ok_explanation(n: int) -> Seq<char> {
    if n < 0 {
        "✓ Arm 1 matchol: Ok(n) if n < 0\nn = "@ + signed_decimal(n)
            + " spĺňa guard podmienku n < 0.\nGuard (if n < 0) je extra podmienka za vzorom."@
    } else if n == 0 {
        "✓ Arm 2 matchol: Ok(0)\nLiterálny vzor — pasuje iba ak n == 0.\nRust porovnáva vzory zhora nadol, guard z arm 1 neprešiel."@
    } else if n < 10 {
        "✓ Arm 3 matchol: Ok(n) if n < 10\nn = "@ + decimal(n as nat)
            + " spĺňa podmienku n < 10 (a n > 0 z predchádzajúcich armen).\nArms 1 a 2 zlyhali: "@
            + decimal(n as nat) + " nie je záporné ani nula."@
    } else {
        "✓ Arm 4 matchol: Ok(n) — catch-all pre Ok\nn = "@ + decimal(n as nat)
            + " ≥ 10, žiaden predchádzajúci arm s guardom neprešiel.\nTento arm bez guardu zachytí všetky zostávajúce Ok hodnoty."@
    }
}

/// The explanation shown for `Err(msg)`.
pub open spec fn err_explanation(msg: Seq<char>) -> Seq<char> {
    "✓ Arm 5 matchol: Err(e) — e = \""@ + msg
        + "\"\nRust skontroloval ramená 1–4, žiadne nepasovalo.\nErr variant zachytí každú chybovú hodnotu."@
}

/// The arm and explanation for a typed value, or nothing when the text, once trimmed, is
/// empty or neither `err:...` nor an `i32`.
pub open spec fn evaluation(input: Seq<char>) -> Option<(int, Seq<char>)> {
    let t = trimmed(input);
    if t.len() == 0 {
        None
    } else if t.len() >= 4 && t.take(4) == err_prefix() {
        Some((4, err_explanation(t.skip(4))))
    } else {
        match parse_i32(t) {
            Some(n) => Some((ok_arm(n), ok_explanation(n))),
            None => None,
        }
    }
}

/// The arm that matched and why.
#[derive(Clone)]
pub struct MatchResult {
    pub matched_arm: usize,
    pub explanation: String,
}

/// Whether `r` is what `evaluation` gives for `input`.
pub open spec fn result_of(input: Seq<char>, r: Option<MatchResult>) -> bool {
    match evaluation(input) {
        None => r is None,
        Some(e) => r matches Some(m) && m.matched_arm == e.0 && m.explanation@ == e.1,
    }
}

/// Parses `chars[lo..hi]` as `str::parse::<i32>` does.
fn parse_i32_range(chars: &Vec<char>, lo: usize, hi: usize) -> (r: Option<i32>)
    requires
        lo <= hi <= chars@.len(),
    ensures
        r matches Some(n) ==> parse_i32(chars@.subrange(lo as int, hi as int)) == Some(n as int),
        r is None ==> parse_i32(chars@.subrange(lo as int, hi as int)) is None,
{
    let ghost t = chars@.subrange(lo as int, hi as int);
    let ghost body = unsigned_part(t);
    let mut start = lo;
    let mut negative = false;
    if lo < hi && (chars[lo] == '-' || chars[lo] == '+') {
        negative = chars[lo] == '-';
        start = lo + 1;
    }
    assert(body =~= chars@.subrange(start as int, hi as int));
    if start == hi {
        return None;
    }
    let cap: i64 = 0x8000_0001;
    let mut acc: i64 = 0;
    let mut i = start;
    while i < hi
        invariant
            lo <= start <= i <= hi <= chars@.len(),
            body == chars@.subrange(start as int, hi as int),
            body == unsigned_part(chars@.subrange(lo as int, hi as int)),
            negative == (hi > lo && chars@[lo as int] == '-'),
            forall|k: int| start <= k < i ==> is_digit(#[trigger] chars@[k]),
            acc == if digits_value(chars@.subrange(start as int, i as int)) < cap {
                digits_value(chars@.subrange(start as int, i as int))
            } else {
                cap as int
            },
            0 <= acc <= cap,
            cap == 0x8000_0001,
        decreases hi - i,
    {
        let c = chars[i];
        let u = c as u32;
        if u < 48 || u > 57 {
            proof {
                let j = i - start;
                assert(body[j] == chars@[i as int]);
                assert(!is_digit(body[j]));
                assert(!(forall|k: int| 0 <= k < body.len() ==> is_digit(#[trigger] body[k])));
            }
            return None;
        }
        proof {
            assert(chars@.subrange(start as int, i + 1).drop_last() =~= chars@.subrange(
                start as int,
                i as int,
            ));
        }
        let d = (u - 48) as i64;
        if acc < cap {
            let next = acc * 10 + d;
            acc = if next < cap {
                next
            } else {
                cap
            };
        }
        i = i + 1;
    }
    assert forall|k: int| 0 <= k < body.len() implies is_digit(#[trigger] body[k]) by {
        assert(body[k] == chars@[start + k]);
    }
    if acc >= cap {
        return None;
    }
    if negative {
        Some((-acc) as i32)
    } else if acc <= 0x7fff_ffff {
        Some(acc as i32)
    } else {
        None
    }
}

/// Works out which arm of the match takes the typed value, and explains why.
pub fn evaluate(input: &str) -> (r: Option<MatchResult>)
    ensures
        result_of(input@, r),
        parse_i32(trimmed(input@)) is Some && parse_i32(trimmed(input@)).unwrap() >= 10 ==> (
        r matches Some(m) && m.matched_arm == 3),
        parse_i32(trimmed(input@)) is Some && 0 < parse_i32(trimmed(input@)).unwrap() < 10 ==> (
        r matches Some(m) && m.matched_arm == 2),
{
    let n = input.unicode_len();
    let mut chars: Vec<char> = Vec::new();
    let mut i: usize = 0;
    while i < n
        invariant
            n == input@.len(),
            i <= n,
            chars@ == input@.take(i as int),
        decreases n - i,
    {
        chars.push(input.get_char(i));
        i = i + 1;
        proof {
            assert(chars@ =~= input@.take(i as int));
        }
    }
    assert(chars@ =~= input@);
    let mut lo: usize = 0;
    while lo < n && white_space(chars[lo])
        invariant
            n == chars@.len(),
            lo <= n,
            trim_start(chars@) == trim_start(chars@.subrange(lo as int, n as int)),
        decreases n - lo,
    {
        assert(chars@.subrange(lo as int, n as int).drop_first() =~= chars@.subrange(
            lo + 1,
            n as int,
        ));
        lo = lo + 1;
    }
    let mut hi: usize = n;
    while hi > lo && white_space(chars[hi - 1])
        invariant
            n == chars@.len(),
            lo <= hi <= n,
            trim_start(chars@) == chars@.subrange(lo as int, n as int),
            trimmed(chars@) == trim_end(chars@.subrange(lo as int, hi as int)),
        decreases hi - lo,
    {
        assert(chars@.subrange(lo as int, hi as int).drop_last() =~= chars@.subrange(
            lo as int,
            hi - 1,
        ));
        hi = hi - 1;
    }
    let ghost t = chars@.subrange(lo as int, hi as int);
    assert(trimmed(input@) == t);
    if lo == hi {
        return None;
    }
    if hi - lo >= 4 && chars[lo] == 'e' && chars[lo + 1] == 'r' && chars[lo + 2] == 'r' && chars[lo
        + 3] == ':' {
        assert(t.take(4) =~= err_prefix());
        let mut text = String::from_str("✓ Arm 5 matchol: Err(e) — e = \"");
        let ghost head = text@;
        let mut k = lo + 4;
        while k < hi
            invariant
                lo + 4 <= k <= hi <= chars@.len(),
                text@ == head + chars@.subrange(lo + 4, k as int),
            decreases hi - k,
        {
            push_char(&mut text, chars[k]);
            k = k + 1;
            proof {
                assert(text@ =~= head + chars@.subrange(lo + 4, k as int));
            }
        }
        text.append(
            "\"\nRust skontroloval ramená 1–4, žiadne nepasovalo.\n\
             Err variant zachytí každú chybovú hodnotu.",
        );
        assert(t.skip(4) =~= chars@.subrange(lo + 4, hi as int));
        proof {
            if parse_i32(t) is Some {
                lemma_number_is_not_err(t, parse_i32(t).unwrap());
            }
        }
        return Some(MatchResult { matched_arm: 4, explanation: text });
    }
    assert(!(t.len() >= 4 && t.take(4) == err_prefix())) by {
        if t.len() >= 4 && t.take(4) == err_prefix() {
            assert(t.take(4)[0] == 'e' && t.take(4)[1] == 'r' && t.take(4)[2] == 'r'
                && t.take(4)[3] == ':');
        }
    }
    match parse_i32_range(&chars, lo, hi) {
        None => None,
        Some(v) => {
            if v < 0 {
                let mut text = String::from_str("✓ Arm 1 matchol: Ok(n) if n < 0\nn = ");
                push_signed_decimal(&mut text, v as i64);
                text.append(
                    " spĺňa guard podmienku n < 0.\n\
                     Guard (if n < 0) je extra podmienka za vzorom.",
                );
                Some(MatchResult { matched_arm: 0, explanation: text })
            } else if v == 0 {
                let text = String::from_str(
                    "✓ Arm 2 matchol: Ok(0)\n\
                     Literálny vzor — pasuje iba ak n == 0.\n\
                     Rust porovnáva vzory zhora nadol, guard z arm 1 neprešiel.",
                );
                Some(MatchResult { matched_arm: 1, explanation: text })
            } else if v < 10 {
                let mut text = String::from_str("✓ Arm 3 matchol: Ok(n) if n < 10\nn = ");
                push_signed_decimal(&mut text, v as i64);
                text.append(
                    " spĺňa podmienku n < 10 (a n > 0 z predchádzajúcich armen).\n\
                     Arms 1 a 2 zlyhali: ",
                );
                push_signed_decimal(&mut text, v as i64);
                text.append(" nie je záporné ani nula.");
                Some(MatchResult { matched_arm: 2, explanation: text })
            } else {
                let mut text = String::from_str("✓ Arm 4 matchol: Ok(n) — catch-all pre Ok\nn = ");
                push_signed_decimal(&mut text, v as i64);
                text.append(
                    " ≥ 10, žiaden predchádzajúci arm s guardom neprešiel.\n\
                     Tento arm bez guardu zachytí všetky zostávajúce Ok hodnoty.",
                );
                Some(MatchResult { matched_arm: 3, explanation: text })
            }
        },
    }
}

/// How an arm is shown once a value has been evaluated.
#[derive(Clone, Copy, PartialEq, Eq, Structural, Debug)]
pub enum ArmRole {
    /// The arm that took the value.
    Matched,
    /// An arm above it, tried and skipped.
    Skipped,
    /// Not tried: below the matching arm, or nothing evaluated yet.
    Pending,
}

/// The role of arm `i` when arm `matched` took the value (or nothing was evaluated).
pub fn arm_role(matched: Option<usize>, i: usize) -> (r: ArmRole)
    ensures
        r == match matched {
            Some(m) => if i == m {
                ArmRole::Matched
            } else if i < m {
                ArmRole::Skipped
            } else {
                ArmRole::Pending
            },
            None => ArmRole::Pending,
        },
{
    match matched {
        Some(m) => {
            if i == m {
                ArmRole::Matched
            } else if i < m {
                ArmRole::Skipped
            } else {
                ArmRole::Pending
            }
        },
        None => ArmRole::Pending,
    }
}

/// State of the screen: the text typed so far, the last evaluation and the highlighted arm.
pub struct App {
    pub input: String,
    pub result: Option<MatchResult>,
    pub selected: Option<usize>,
}

impl App {
    /// Nothing typed, nothing evaluated, no arm highlighted.
    pub fn new() -> (app: App)
        ensures
            app.input@.len() == 0,
            app.result is None,
            app.selected is None,
    {
        App { input: String::new(), result: None, selected: None }
    }

    /// Evaluates the typed text and highlights the arm that takes it.
    pub fn submit(&mut self)
        ensures
            final(self).input@ == old(self).input@,
            result_of(old(self).input@, final(self).result),
            final(self).selected == match final(self).result {
                Some(m) => Some(m.matched_arm),
                None => None::<usize>,
            },
    {
        let r = evaluate(self.input.as_str());
        self.selected = match &r {
            Some(m) => Some(m.matched_arm),
            None => None,
        };
        self.result = r;
    }

    /// Something is typed but it was not recognised (nothing evaluated for it).
    pub fn input_invalid(&self) -> (b: bool)
        ensures
            b == (self.result is None && self.input@.len() > 0),
    {
        self.result.is_none() && !self.input.as_str().is_empty()
    }

    /// Appends a typed character; an edit clears the last evaluation.
    pub fn type_char(&mut self, c: char)
        ensures
            final(self).input@ == old(self).input@.push(c),
            final(self).result is None,
            final(self).selected is None,
    {
        push_char(&mut self.input, c);
        self.result = None;
        self.selected = None;
    }

    /// Deletes the last typed character, if any; an edit clears the last evaluation.
    pub fn backspace(&mut self)
        ensures
            old(self).input@.len() == 0 ==> final(self).input@ == old(self).input@,
            old(self).input@.len() > 0 ==> final(self).input@ == old(self).input@.drop_last(),
            final(self).result is None,
            final(self).selected is None,
    {
        pop_char(&mut self.input);
        self.result = None;
        self.selected = None;
    }
}

proof fn lemma_decimal_digits(m: nat)
    ensures
        decimal(m).len() > 0,
        forall|i: int| 0 <= i < decimal(m).len() ==> is_digit(#[trigger] decimal(m)[i]),
        digits_value(decimal(m)) == m,
    decreases m,
{
    let k = (m % 10) as int;
    assert(digit_char(k) as u32 == k + 48);
    if m < 10 {
        assert(decimal(m).drop_last() =~= Seq::<char>::empty());
        assert(digits_value(Seq::<char>::empty()) == 0);
        assert(decimal(m).last() == digit_char(k));
        assert(digits_value(decimal(m)) == digits_value(decimal(m).drop_last()) * 10 + k);
    }
    if m >= 10 {
        lemma_decimal_digits(m / 10);
        let d = decimal(m);
        assert(d.drop_last() =~= decimal(m / 10));
        assert(d.last() == digit_char(k));
        assert(digits_value(d) == digits_value(decimal(m / 10)) * 10 + k);
        assert((m / 10) * 10 + k == m);
        assert forall|i: int| 0 <= i < d.len() implies is_digit(#[trigger] d[i]) by {
            if i < d.len() - 1 {
                assert(d[i] == decimal(m / 10)[i]);
            }
        }
    }
}

proof fn lemma_untrimmed(s: Seq<char>)
    requires
        s.len() > 0,
        !is_white_space(s[0]),
        !is_white_space(s.last()),
    ensures
        trimmed(s) == s,
{
}

/// Typing the decimal numeral of any `i32` (with a `-` when negative) is read back as that
/// number, so the arm chosen is the one whose pattern the number matches.
pub proof fn lemma_numerals_read_back(n: i32)
    ensures
        evaluation(signed_decimal(n as int)) == Some((ok_arm(n as int), ok_explanation(n as int))),
{
    let s = signed_decimal(n as int);
    let m: nat = if n < 0 { (-(n as int)) as nat } else { n as nat };
    lemma_decimal_digits(m);
    let d = decimal(m);
    if n < 0 {
        assert(s == seq!['-'] + d);
        assert(s.last() == d.last());
        assert(is_digit(d[d.len() - 1]));
        assert(s.drop_first() =~= d);
    } else {
        assert(is_digit(d[0]));
        assert(is_digit(d[d.len() - 1]));
    }
    lemma_untrimmed(s);
    assert(unsigned_part(s) =~= d);
    assert(!(s.len() >= 4 && s.take(4) == err_prefix())) by {
        if s.len() >= 4 && s.take(4) == err_prefix() {
            assert(s.take(4)[0] == 'e');
        }
    }
    assert(parse_i32(s) == Some(n as int));
}

/// Whether arm `k` of the screen's `match` takes `Ok(n)`, by its pattern and guard alone:
/// `Ok(n) if n < 0`, `Ok(0)`, `Ok(n) if n < 10`, `Ok(n)`; the last arm, `Err(e)`, takes no
/// `Ok` value.
pub open spec fn arm_takes_ok(k: int, n: int) -> bool {
    if k == 0 {
        n < 0
    } else if k == 1 {
        n == 0
    } else if k == 2 {
        n < 10
    } else {
        k == 3
    }
}

/// Text that reads as a number is never taken for an error value.
proof fn lemma_number_is_not_err(t: Seq<char>, n: int)
    requires
        parse_i32(t) == Some(n),
    ensures
        t.len() > 0,
        !(t.len() >= 4 && t.take(4) == err_prefix()),
{
    let body = unsigned_part(t);
    assert(body.len() > 0 && is_digit(body[0]));
    if t.len() >= 4 && t.take(4) == err_prefix() {
        assert(t[0] == t.take(4)[0]);
        assert(t[0] == 'e');
        assert(body == t);
    }
}

/// Matching is first match: whatever text is typed, when it reads as the number `n` the arm
/// chosen is the first arm, in the order they are written, whose pattern and guard take
/// `Ok(n)`. So `Ok(n) if n < 10` is chosen only for `0 < n < 10`, and every `n >= 10` falls
/// through to the catch-all `Ok(n)`.
pub proof fn lemma_first_matching_arm(input: Seq<char>, n: int)
    requires
        parse_i32(trimmed(input)) == Some(n),
    ensures
        evaluation(input) is Some,
        0 <= evaluation(input).unwrap().0 < 4,
        arm_takes_ok(evaluation(input).unwrap().0, n),
        forall|k: int| 0 <= k < evaluation(input).unwrap().0 ==> !arm_takes_ok(k, n),
        n >= 10 ==> evaluation(input).unwrap().0 == 3,
{
    lemma_number_is_not_err(trimmed(input), n);
}

/// The first words of every explanation: `✓ Arm k matchol`, with `k` the arm's number as
/// the screen counts them, from 1.
pub open spec fn arm_header(arm: int) -> Seq<char> {
    seq!['✓', ' ', 'A', 'r', 'm', ' ', digit_char(arm + 1), ' ', 'm', 'a', 't', 'c', 'h', 'o', 'l']
}

/// Whether `part` occurs in `s` as a run of consecutive characters.
pub open spec fn shows_text(s: Seq<char>, part: Seq<char>) -> bool {
    exists|p: int| 0 <= p && p + part.len() <= s.len() && #[trigger] s.subrange(p, p + part.len())
        == part
}

/// The explanation of a number names the arm that took it and, unless the literal arm `Ok(0)`
/// took it, shows the number read as `n = <number> `.
pub proof fn lemma_explanation_shows_number(input: Seq<char>, n: int)
    requires
        parse_i32(trimmed(input)) == Some(n),
    ensures
        evaluation(input) is Some,
        evaluation(input).unwrap().1.len() >= 15,
        evaluation(input).unwrap().1.take(15) == arm_header(evaluation(input).unwrap().0),
        n != 0 ==> shows_text(evaluation(input).unwrap().1, "n = "@ + signed_decimal(n) + " "@),
{
    lemma_first_matching_arm(input, n);
    let e = evaluation(input).unwrap().1;
    let shown = "n = "@ + signed_decimal(n) + " "@;
    reveal_strlit("n = ");
    reveal_strlit(" ");
    if n < 0 {
        
        reveal_strlit("✓ Arm 1 matchol: Ok(n) if n < 0\nn = ");
        reveal_strlit("✓ Arm 1 matchol: Ok(n) if n < 0\n");
        reveal_strlit(" spĺňa guard podmienku n < 0.\nGuard (if n < 0) je extra podmienka za vzorom.");
        assert(e.take(15) =~= arm_header(0));
        assert(e.subrange(32, 32 + shown.len() as int) =~= shown);
    } else if n == 0 {
        reveal_strlit("✓ Arm 2 matchol: Ok(0)\nLiterálny vzor — pasuje iba ak n == 0.\nRust porovnáva vzory zhora nadol, guard z arm 1 neprešiel.");
        assert(e.take(15) =~= arm_header(1));
    } else if n < 10 {
        reveal_strlit("✓ Arm 3 matchol: Ok(n) if n < 10\nn = ");
        reveal_strlit(" spĺňa podmienku n < 10 (a n > 0 z predchádzajúcich armen).\nArms 1 a 2 zlyhali: ");
        assert(e.take(15) =~= arm_header(2));
        assert(e.subrange(33, 33 + shown.len() as int) =~= shown);
    } else {
        reveal_strlit("✓ Arm 4 matchol: Ok(n) — catch-all pre Ok\nn = ");
        reveal_strlit(" ≥ 10, žiaden predchádzajúci arm s guardom neprešiel.\nTento arm bez guardu zachytí všetky zostávajúce Ok hodnoty.");
        assert(e.take(15) =~= arm_header(3));
        assert(e.subrange(42, 42 + shown.len() as int) =~= shown);
    }
}

/// Text that starts with `err:` once trimmed is taken by the `Err(e)` arm, and the
/// explanation shows the rest of the text, in quotes, as `e`.
pub proof fn lemma_error_text_goes_to_err_arm(input: Seq<char>)
    requires
        trimmed(input).len() >= 4,
        trimmed(input).take(4) == err_prefix(),
    ensures
        evaluation(input) is Some,
        evaluation(input).unwrap().0 == 4,
        evaluation(input).unwrap().1.take(15) == arm_header(4),
        shows_text(
            evaluation(input).unwrap().1,
            seq!['"'] + trimmed(input).skip(4) + seq!['"'],
        ),
{
    let e = evaluation(input).unwrap().1;
    let msg = trimmed(input).skip(4);
    let shown = seq!['"'] + msg + seq!['"'];
    reveal_strlit("✓ Arm 5 matchol: Err(e) — e = \"");
    reveal_strlit("\"\nRust skontroloval ramená 1–4, žiadne nepasovalo.\nErr variant zachytí každú chybovú hodnotu.");
    assert(e.take(15) =~= arm_header(4));
    assert(e.subrange(30, 30 + shown.len() as int) =~= shown);
}

} // verus!
