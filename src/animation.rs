use vstd::prelude::*;

verus! {

/// Unicode `White_Space`, the characters that trimming removes.
pub open spec fn is_white_space(c: char) -> bool {
    ||| '\t' <= c && c <= '\r'
    ||| c == ' '
    ||| c == '\u{85}'
    ||| c == '\u{a0}'
    ||| c == '\u{1680}'
    ||| '\u{2000}' <= c && c <= '\u{200a}'
    ||| c == '\u{2028}'
    ||| c == '\u{2029}'
    ||| c == '\u{202f}'
    ||| c == '\u{205f}'
    ||| c == '\u{3000}'
}

pub open spec fn trim_start(s: Seq<char>) -> Seq<char>
    decreases s.len(),
{
    if s.len() > 0 && is_white_space(s[0]) {
        trim_start(s.drop_first())
    } else {
        s
    }
}

pub open spec fn trim_end(s: Seq<char>) -> Seq<char>
    decreases s.len(),
{
    if s.len() > 0 && is_white_space(s.last()) {
        trim_end(s.drop_last())
    } else {
        s
    }
}

/// The text without leading and trailing white space.
pub open spec fn trim(s: Seq<char>) -> Seq<char> {
    trim_end(trim_start(s))
}

/// The position of the first `c` in `s`.
pub open spec fn find_char(s: Seq<char>, c: char) -> Option<int>
    decreases s.len(),
{
    if s.len() == 0 {
        None
    } else if s[0] == c {
        Some(0)
    } else {
        match find_char(s.drop_first(), c) {
            Some(i) => Some(i + 1),
            None => None,
        }
    }
}

/// A character found lies within the text, and is the first of its kind.
pub proof fn lemma_find_char(s: Seq<char>, c: char)
    ensures
        match find_char(s, c) {
            Some(i) => 0 <= i < s.len() && s[i] == c && forall|j: int| 0 <= j < i ==> s[j] != c,
            None => forall|j: int| 0 <= j < s.len() ==> s[j] != c,
        },
    decreases s.len(),
{
    if s.len() > 0 {
        lemma_find_char(s.drop_first(), c);
        if s[0] != c {
            match find_char(s.drop_first(), c) {
                Some(i) => {
                    assert forall|j: int| 0 <= j < i + 1 implies s[j] != c by {
                        if j > 0 {
                            assert(s[j] == s.drop_first()[j - 1]);
                        }
                    }
                },
                None => {
                    assert forall|j: int| 0 <= j < s.len() implies s[j] != c by {
                        if j > 0 {
                            assert(s[j] == s.drop_first()[j - 1]);
                        }
                    }
                },
            }
        }
    }
}

pub open spec fn is_digit(c: char) -> bool {
    '0' <= c && c <= '9'
}

/// The number that a run of decimal digits spells.
pub open spec fn digits_value(s: Seq<char>) -> nat
    decreases s.len(),
{
    if s.len() == 0 {
        0
    } else {
        digits_value(s.drop_last()) * 10 + (s.last() as nat - '0' as nat) as nat
    }
}

/// The text after an optional leading `+`.
pub open spec fn unsigned_part(s: Seq<char>) -> Seq<char> {
    if s.len() > 0 && s[0] == '+' {
        s.drop_first()
    } else {
        s
    }
}

pub open spec fn all_digits(t: Seq<char>) -> bool {
    forall|i: int| 0 <= i < t.len() ==> is_digit(#[trigger] t[i])
}

/// What Rust's parsing of an unsigned integer whose largest value is `max` gives:
/// decimal digits, at least one, after an optional `+`, with a value that fits.
pub open spec fn parse_unsigned(s: Seq<char>, max: nat) -> Option<nat> {
    let t = unsigned_part(s);
    if t.len() > 0 && all_digits(t) && digits_value(t) <= max {
        Some(digits_value(t))
    } else {
        None
    }
}

/// What Rust's parsing of a `u32` gives.
pub open spec fn parse_u32_spec(s: Seq<char>) -> Option<u32> {
    match parse_unsigned(s, u32::MAX as nat) {
        Some(v) => Some(v as u32),
        None => None,
    }
}

/// How a rule picks the next frame.
#[derive(Debug, Clone, Copy, PartialEq, Eq, Structural)]
pub enum NextFrame {
    /// This frame.
    Value(u32),
    /// The frame after the current one.
    Increment,
    /// The frame before the current one.
    Decrement,
    /// The current frame again.
    Same,
}

/// Why a state machine description or lookup was refused.
#[derive(Debug, Clone, Copy, PartialEq, Eq, Structural)]
pub enum AnimationError {
    /// A rule has no `:` between its condition and its result.
    MissingColon,
    /// A rule's condition has no `,` between its frames and its state.
    MissingComma,
    /// A frame number does not parse as a `u32`.
    InvalidNumber,
    /// A rule names a state that was not declared before it.
    InvalidState,
    /// No rule matches the frame and state asked about.
    UnhandledCase,
}

/// A rule as values: the frames it applies to (all when `None`), the state it
/// applies in (any when `None`), and how it picks the next frame.
pub struct RuleView {
    pub range: Option<(u32, u32)>,
    pub state: Option<Seq<char>>,
    pub next: NextFrame,
}

/// The frames that a rule's range text `1`, `2-5` or `*` names.
pub open spec fn range_spec(range: Seq<char>) -> Result<Option<(u32, u32)>, AnimationError> {
    if range == "*"@ {
        Ok(None)
    } else {
        match find_char(range, '-') {
            None => match parse_u32_spec(range) {
                Some(n) => Ok(Some((n, n))),
                None => Err(AnimationError::InvalidNumber),
            },
            Some(d) => match (
                parse_u32_spec(trim(range.subrange(0, d))),
                parse_u32_spec(trim(range.subrange(d + 1, range.len() as int))),
            ) {
                (Some(a), Some(b)) => Ok(Some((a, b))),
                _ => Err(AnimationError::InvalidNumber),
            },
        }
    }
}

/// The result part of a rule: `+`, `-`, `=` or a frame number.
pub open spec fn next_spec(consequent: Seq<char>) -> Result<NextFrame, AnimationError> {
    if consequent == "+"@ {
        Ok(NextFrame::Increment)
    } else if consequent == "-"@ {
        Ok(NextFrame::Decrement)
    } else if consequent == "="@ {
        Ok(NextFrame::Same)
    } else {
        match parse_u32_spec(consequent) {
            Some(n) => Ok(NextFrame::Value(n)),
            None => Err(AnimationError::InvalidNumber),
        }
    }
}

/// What a rule line `FRAMES, STATE: NEXT` means, with `states` the states
/// declared so far. Each part may be `*`, matching anything.
pub open spec fn rule_spec(text: Seq<char>, states: Seq<Seq<char>>) -> Result<RuleView, AnimationError> {
    let t = trim(text);
    match find_char(t, ':') {
        None => Err(AnimationError::MissingColon),
        Some(colon) => {
            let antecedent = trim(t.subrange(0, colon));
            let consequent = trim(t.subrange(colon + 1, t.len() as int));
            match find_char(antecedent, ',') {
                None => Err(AnimationError::MissingComma),
                Some(comma) => {
                    let range = trim(antecedent.subrange(0, comma));
                    let state = trim(antecedent.subrange(comma + 1, antecedent.len() as int));
                    match range_spec(range) {
                        Err(e) => Err(e),
                        Ok(r) => if state != "*"@ && !states.contains(state) {
                            Err(AnimationError::InvalidState)
                        } else {
                            match next_spec(consequent) {
                                Err(e) => Err(e),
                                Ok(n) => Ok(
                                    RuleView { range: r, state: if state == "*"@ { None } else { Some(state) }, next: n },
                                ),
                            }
                        },
                    }
                },
            }
        },
    }
}

/// Where reading a description stands: the states declared, whether the
/// transitions section has begun, and the rules read.
pub struct ReadState {
    pub states: Seq<Seq<char>>,
    pub in_transitions: bool,
    pub rules: Seq<RuleView>,
}

/// Reads one line of a description.
#[verifier::opaque]
pub open spec fn line_step(line: Seq<char>, st: ReadState) -> Result<ReadState, AnimationError> {
    let l = trim(line);
    if l.len() == 0 || l[0] == '#' {
        Ok(st)
    } else if l == "[STATES]"@ {
        Ok(ReadState { in_transitions: false, ..st })
    } else if l == "[TRANSITIONS]"@ {
        Ok(ReadState { in_transitions: true, ..st })
    } else if !st.in_transitions {
        Ok(ReadState { states: st.states.push(l), ..st })
    } else {
        match rule_spec(l, st.states) {
            Err(e) => Err(e),
            Ok(r) => Ok(ReadState { rules: st.rules.push(r), ..st }),
        }
    }
}

/// Reads the lines of `s`, one per line break, from the state `st`.
pub open spec fn read_lines(s: Seq<char>, st: ReadState) -> Result<ReadState, AnimationError>
    decreases s.len(),
{
    match find_char(s, '\n') {
        None => line_step(s, st),
        Some(i) => if 0 <= i < s.len() {
            match line_step(s.subrange(0, i), st) {
                Err(e) => Err(e),
                Ok(next) => read_lines(s.subrange(i + 1, s.len() as int), next),
            }
        } else {
            line_step(s, st)
        },
    }
}

/// The rules that a description holds: lines of states under `[STATES]` (the
/// start), rules under `[TRANSITIONS]`; blank lines and lines starting with `#`
/// are skipped.
pub open spec fn machine_spec(text: Seq<char>) -> Result<Seq<RuleView>, AnimationError> {
    match read_lines(text, ReadState { states: Seq::empty(), in_transitions: false, rules: Seq::empty() }) {
        Err(e) => Err(e),
        Ok(st) => Ok(st.rules),
    }
}

/// The characters of `s`.
pub(crate) fn chars_of(s: &str) -> (r: Vec<char>)
    ensures
        r@ == s@,
{
    let n = s.unicode_len();
    let mut r: Vec<char> = Vec::new();
    let mut i: usize = 0;
    while i < n
        invariant
            n == s@.len(),
            i <= n,
            r@ == s@.subrange(0, i as int),
        decreases n - i,
    {
        r.push(s.get_char(i));
        i = i + 1;
        assert(r@ =~= s@.subrange(0, i as int));
    }
    assert(r@ =~= s@);
    r
}

fn white_space(c: char) -> (r: bool)
    ensures
        r == is_white_space(c),
{
    ('\t' <= c && c <= '\r') || c == ' ' || c == '\u{85}' || c == '\u{a0}' || c == '\u{1680}' || ('\u{2000}' <= c
        && c <= '\u{200a}') || c == '\u{2028}' || c == '\u{2029}' || c == '\u{202f}' || c == '\u{205f}' || c
        == '\u{3000}'
}

/// The bounds of `c[lo..hi]` with its leading and trailing white space removed.
pub(crate) fn trim_range(c: &Vec<char>, lo: usize, hi: usize) -> (r: (usize, usize))
    requires
        lo <= hi <= c@.len(),
    ensures
        lo <= r.0 <= r.1 <= hi,
        c@.subrange(r.0 as int, r.1 as int) == trim(c@.subrange(lo as int, hi as int)),
{
    let mut i = lo;
    while i < hi && white_space(c[i])
        invariant
            lo <= i <= hi,
            hi <= c@.len(),
            trim_start(c@.subrange(lo as int, hi as int)) == trim_start(c@.subrange(i as int, hi as int)),
        decreases hi - i,
    {
        assert(c@.subrange(i as int, hi as int).drop_first() =~= c@.subrange(i + 1, hi as int));
        i = i + 1;
    }
    assert(trim_start(c@.subrange(i as int, hi as int)) == c@.subrange(i as int, hi as int));
    let mut j = hi;
    while j > i && white_space(c[j - 1])
        invariant
            i <= j <= hi,
            hi <= c@.len(),
            trim_end(c@.subrange(i as int, hi as int)) == trim_end(c@.subrange(i as int, j as int)),
        decreases j - i,
    {
        assert(c@.subrange(i as int, j as int).drop_last() =~= c@.subrange(i as int, j - 1));
        j = j - 1;
    }
    (i, j)
}

/// The position of the first `target` in `c[lo..hi]`.
pub(crate) fn find_in_range(c: &Vec<char>, lo: usize, hi: usize, target: char) -> (r: Option<usize>)
    requires
        lo <= hi <= c@.len(),
    ensures
        match find_char(c@.subrange(lo as int, hi as int), target) {
            Some(i) => r == Some((lo + i) as usize),
            None => r is None,
        },
{
    let ghost s = c@.subrange(lo as int, hi as int);
    proof {
        lemma_find_char(s, target);
    }
    let mut k = lo;
    while k < hi
        invariant
            lo <= k <= hi,
            hi <= c@.len(),
            s == c@.subrange(lo as int, hi as int),
            forall|m: int| 0 <= m < k - lo ==> s[m] != target,
        decreases hi - k,
    {
        if c[k] == target {
            assert(s[k - lo] == target);
            proof {
                lemma_find_char(s, target);
                match find_char(s, target) {
                    Some(i) => {
                        if i < k - lo {
                            assert(s[i] != target);
                        }
                        if i > k - lo {
                            assert(s[k - lo] != target);
                        }
                    },
                    None => {
                        assert(s[k - lo] != target);
                    },
                }
            }
            return Some(k);
        }
        k = k + 1;
    }
    proof {
        lemma_find_char(s, target);
        match find_char(s, target) {
            Some(i) => {
                assert(s[i] == target);
            },
            None => {},
        }
    }
    None
}

/// Every prefix of a run of digits has a value no greater than the whole run.
proof fn lemma_digits_prefix(s: Seq<char>, k: int)
    requires
        0 <= k <= s.len(),
    ensures
        digits_value(s.subrange(0, k)) <= digits_value(s),
    decreases s.len(),
{
    if k < s.len() {
        assert(s.drop_last().subrange(0, k) =~= s.subrange(0, k));
        lemma_digits_prefix(s.drop_last(), k);
    } else {
        assert(s.subrange(0, k) =~= s);
    }
}

/// Parses `c[lo..hi]` as an unsigned integer no larger than `max`.
pub(crate) fn parse_unsigned_range(c: &Vec<char>, lo: usize, hi: usize, max: u64) -> (r: Option<u64>)
    requires
        lo <= hi <= c@.len(),
    ensures
        match parse_unsigned(c@.subrange(lo as int, hi as int), max as nat) {
            Some(v) => r == Some(v as u64),
            None => r is None,
        },
{
    let ghost s = c@.subrange(lo as int, hi as int);
    let start = if lo < hi && c[lo] == '+' {
        lo + 1
    } else {
        lo
    };
    let ghost t = c@.subrange(start as int, hi as int);
    assert(t =~= unsigned_part(s));
    if start == hi {
        return None;
    }
    let mut v: u128 = 0;
    let mut k = start;
    while k < hi
        invariant
            start <= k <= hi,
            hi <= c@.len(),
            t == c@.subrange(start as int, hi as int),
            s == c@.subrange(lo as int, hi as int),
            t == unsigned_part(s),
            v == digits_value(t.subrange(0, k - start)),
            v <= max,
            forall|m: int| 0 <= m < k - start ==> is_digit(#[trigger] t[m]),
        decreases hi - k,
    {
        let ch = c[k];
        if !('0' <= ch && ch <= '9') {
            assert(!is_digit(t[k - start]));
            return None;
        }
        assert(t.subrange(0, k + 1 - start).drop_last() =~= t.subrange(0, k - start));
        v = v * 10 + (ch as u32 - '0' as u32) as u128;
        if v > max as u128 {
            proof {
                if all_digits(t) {
                    lemma_digits_prefix(t, k + 1 - start);
                }
            }
            return None;
        }
        k = k + 1;
    }
    assert(t.subrange(0, k - start) =~= t);
    Some(v as u64)
}

/// Parses `c[lo..hi]` as a `u32`.
fn parse_u32_range(c: &Vec<char>, lo: usize, hi: usize) -> (r: Option<u32>)
    requires
        lo <= hi <= c@.len(),
    ensures
        r == parse_u32_spec(c@.subrange(lo as int, hi as int)),
{
    match parse_unsigned_range(c, lo, hi, u32::MAX as u64) {
        Some(v) => Some(v as u32),
        None => None,
    }
}

/// Whether `c[lo..hi]` is the text `lit`.
pub(crate) fn range_is(c: &Vec<char>, lo: usize, hi: usize, lit: &str) -> (r: bool)
    requires
        lo <= hi <= c@.len(),
    ensures
        r == (c@.subrange(lo as int, hi as int) == lit@),
{
    let n = lit.unicode_len();
    if hi - lo != n {
        return false;
    }
    let mut k: usize = 0;
    while k < n
        invariant
            hi - lo == n,
            n == lit@.len(),
            hi <= c@.len(),
            k <= n,
            forall|m: int| 0 <= m < k ==> c@[lo + m] == lit@[m],
        decreases n - k,
    {
        if c[lo + k] != lit.get_char(k) {
            assert(c@.subrange(lo as int, hi as int)[k as int] != lit@[k as int]);
            return false;
        }
        k = k + 1;
    }
    assert(c@.subrange(lo as int, hi as int) =~= lit@);
    true
}

/// The characters of `c[lo..hi]`.
pub(crate) fn copy_range(c: &Vec<char>, lo: usize, hi: usize) -> (r: Vec<char>)
    requires
        lo <= hi <= c@.len(),
    ensures
        r@ == c@.subrange(lo as int, hi as int),
{
    let mut r: Vec<char> = Vec::new();
    let mut k = lo;
    while k < hi
        invariant
            lo <= k <= hi,
            hi <= c@.len(),
            r@ == c@.subrange(lo as int, k as int),
        decreases hi - k,
    {
        r.push(c[k]);
        k = k + 1;
        assert(r@ =~= c@.subrange(lo as int, k as int));
    }
    r
}

pub open spec fn states_view(states: Seq<Vec<char>>) -> Seq<Seq<char>> {
    states.map_values(|v: Vec<char>| v@)
}

/// Whether `c[lo..hi]` is one of `states`.
fn states_contain(states: &Vec<Vec<char>>, c: &Vec<char>, lo: usize, hi: usize) -> (r: bool)
    requires
        lo <= hi <= c@.len(),
    ensures
        r == states_view(states@).contains(c@.subrange(lo as int, hi as int)),
{
    let ghost target = c@.subrange(lo as int, hi as int);
    let mut k: usize = 0;
    while k < states.len()
        invariant
            k <= states@.len(),
            lo <= hi <= c@.len(),
            target == c@.subrange(lo as int, hi as int),
            forall|m: int| 0 <= m < k ==> states@[m]@ != target,
        decreases states@.len() - k,
    {
        let st = &states[k];
        if st.len() == hi - lo {
            let mut m: usize = 0;
            let mut same = true;
            while m < st.len()
                invariant
                    st.len() == hi - lo,
                    lo <= hi <= c@.len(),
                    m <= st@.len(),
                    same == forall|q: int| 0 <= q < m ==> st@[q] == c@[lo + q],
                decreases st@.len() - m,
            {
                if st[m] != c[lo + m] {
                    same = false;
                }
                m = m + 1;
            }
            if same {
                assert(st@ =~= target);
                assert(states_view(states@)[k as int] == target);
                return true;
            } else {
                assert(st@ != target) by {
                    let q = choose|q: int| 0 <= q < m && st@[q] != c@[lo + q];
                    assert(target[q] == c@[lo + q]);
                }
            }
        }
        k = k + 1;
    }
    assert forall|m: int| 0 <= m < states_view(states@).len() implies states_view(states@)[m] != target by {
        assert(states_view(states@)[m] == states@[m]@);
    }
    false
}

/// A transition of an animation's state machine.
pub struct AnimationStateMachineRule {
    current_range: Option<(u32, u32)>,
    current_state: Option<Vec<char>>,
    next_frame: NextFrame,
}

impl View for AnimationStateMachineRule {
    type V = RuleView;

    closed spec fn view(&self) -> RuleView {
        RuleView {
            range: self.current_range,
            state: match self.current_state {
                Some(v) => Some(v@),
                None => None,
            },
            next: self.next_frame,
        }
    }
}

/// `c@.subrange(lo, hi)` cut at a position found within it.
proof fn lemma_subrange_of_subrange(c: Seq<char>, lo: int, hi: int, a: int, b: int)
    requires
        0 <= lo <= hi <= c.len(),
        0 <= a <= b <= hi - lo,
    ensures
        c.subrange(lo, hi).subrange(a, b) == c.subrange(lo + a, lo + b),
{
    assert(c.subrange(lo, hi).subrange(a, b) =~= c.subrange(lo + a, lo + b));
}

impl AnimationStateMachineRule {
    /// Reads the rule on `c[lo..hi]`, with `states` the states declared so far.
    fn new(c: &Vec<char>, lo: usize, hi: usize, states: &Vec<Vec<char>>) -> (r: Result<AnimationStateMachineRule, AnimationError>)
        requires
            lo <= hi <= c@.len(),
        ensures
            match rule_spec(c@.subrange(lo as int, hi as int), states_view(states@)) {
                Ok(v) => r is Ok && r->Ok_0@ == v,
                Err(e) => r is Err && r->Err_0 == e,
            },
    {
        let ghost text = c@.subrange(lo as int, hi as int);
        reveal(rule_spec);
        let (tlo, thi) = trim_range(c, lo, hi);
        let ghost t = c@.subrange(tlo as int, thi as int);
        proof {
            lemma_find_char(t, ':');
        }
        let colon = match find_in_range(c, tlo, thi, ':') {
            None => {
                return Err(AnimationError::MissingColon);
            },
            Some(k) => k,
        };
        proof {
            lemma_subrange_of_subrange(c@, tlo as int, thi as int, 0, colon - tlo);
            lemma_subrange_of_subrange(c@, tlo as int, thi as int, colon + 1 - tlo, thi - tlo);
        }
        let (alo, ahi) = trim_range(c, tlo, colon);
        let (clo, chi) = trim_range(c, colon + 1, thi);
        let ghost antecedent = c@.subrange(alo as int, ahi as int);
        let ghost consequent = c@.subrange(clo as int, chi as int);
        proof {
            lemma_find_char(antecedent, ',');
        }
        let comma = match find_in_range(c, alo, ahi, ',') {
            None => {
                return Err(AnimationError::MissingComma);
            },
            Some(k) => k,
        };
        proof {
            lemma_subrange_of_subrange(c@, alo as int, ahi as int, 0, comma - alo);
            lemma_subrange_of_subrange(c@, alo as int, ahi as int, comma + 1 - alo, ahi - alo);
        }
        let (rlo, rhi) = trim_range(c, alo, comma);
        let (slo, shi) = trim_range(c, comma + 1, ahi);
        let ghost range = c@.subrange(rlo as int, rhi as int);
        let ghost state = c@.subrange(slo as int, shi as int);
        let current_range = if range_is(c, rlo, rhi, "*") {
            None
        } else {
            proof {
                lemma_find_char(range, '-');
            }
            match find_in_range(c, rlo, rhi, '-') {
                None => match parse_u32_range(c, rlo, rhi) {
                    Some(n) => Some((n, n)),
                    None => {
                        return Err(AnimationError::InvalidNumber);
                    },
                },
                Some(d) => {
                    proof {
                        lemma_subrange_of_subrange(c@, rlo as int, rhi as int, 0, d - rlo);
                        lemma_subrange_of_subrange(c@, rlo as int, rhi as int, d + 1 - rlo, rhi - rlo);
                    }
                    let (a0, a1) = trim_range(c, rlo, d);
                    let (b0, b1) = trim_range(c, d + 1, rhi);
                    match (parse_u32_range(c, a0, a1), parse_u32_range(c, b0, b1)) {
                        (Some(a), Some(b)) => Some((a, b)),
                        _ => {
                            return Err(AnimationError::InvalidNumber);
                        },
                    }
                },
            }
        };
        assert(range_spec(range) == Ok::<Option<(u32, u32)>, AnimationError>(current_range));
        let current_state = if range_is(c, slo, shi, "*") {
            None
        } else {
            if !states_contain(states, c, slo, shi) {
                return Err(AnimationError::InvalidState);
            }
            Some(copy_range(c, slo, shi))
        };
        let next_frame = if range_is(c, clo, chi, "+") {
            NextFrame::Increment
        } else if range_is(c, clo, chi, "-") {
            NextFrame::Decrement
        } else if range_is(c, clo, chi, "=") {
            NextFrame::Same
        } else {
            match parse_u32_range(c, clo, chi) {
                Some(n) => NextFrame::Value(n),
                None => {
                    return Err(AnimationError::InvalidNumber);
                },
            }
        };
        Ok(AnimationStateMachineRule { current_range, current_state, next_frame })
    }
}

/// Whether a rule applies on frame `frame` in state `state`.
pub open spec fn rule_matches(rule: RuleView, frame: u32, state: Seq<char>) -> bool {
    &&& match rule.range {
        Some((a, b)) => a <= frame <= b,
        None => true,
    }
    &&& match rule.state {
        Some(s) => s == state,
        None => true,
    }
}

/// The frame that a rule moves to from `frame`.
pub open spec fn apply_spec(next: NextFrame, frame: u32) -> int {
    match next {
        NextFrame::Value(n) => n as int,
        NextFrame::Increment => frame + 1,
        NextFrame::Decrement => frame - 1,
        NextFrame::Same => frame as int,
    }
}

/// Whether rule `i` is the first of `rules` that applies.
pub open spec fn first_match(rules: Seq<RuleView>, i: int, frame: u32, state: Seq<char>) -> bool {
    &&& 0 <= i < rules.len()
    &&& rule_matches(rules[i], frame, state)
    &&& forall|j: int| 0 <= j < i ==> !rule_matches(#[trigger] rules[j], frame, state)
}

impl NextFrame {
    /// The frame after `frame` under this choice.
    pub fn next(&self, frame: u32) -> (r: u32)
        requires
            0 <= apply_spec(*self, frame) <= u32::MAX,
        ensures
            r == apply_spec(*self, frame),
    {
        match self {
            NextFrame::Value(n) => *n,
            NextFrame::Increment => frame + 1,
            NextFrame::Decrement => frame - 1,
            NextFrame::Same => frame,
        }
    }
}

impl AnimationStateMachineRule {
    /// Whether the rule applies on frame `current_frame` in state `current_state`.
    pub fn matches(&self, current_frame: u32, current_state: &str) -> (r: bool)
        ensures
            r == rule_matches(self@, current_frame, current_state@),
    {
        if let Some((start, end)) = self.current_range {
            if !(start <= current_frame && current_frame <= end) {
                return false;
            }
        }
        if let Some(state) = &self.current_state {
            let n = current_state.unicode_len();
            if state.len() != n {
                return false;
            }
            let mut k: usize = 0;
            while k < n
                invariant
                    n == current_state@.len(),
                    state@.len() == n,
                    self@.state == Some(state@),
                    match self@.range {
                        Some((a, b)) => a <= current_frame <= b,
                        None => true,
                    },
                    k <= n,
                    forall|m: int| 0 <= m < k ==> state@[m] == current_state@[m],
                decreases n - k,
            {
                if state[k] != current_state.get_char(k) {
                    assert(state@[k as int] != current_state@[k as int]);
                    return false;
                }
                k = k + 1;
            }
            assert(state@ =~= current_state@);
        }
        true
    }

    /// The frame this rule moves to from `current_frame`.
    pub fn apply(&self, current_frame: u32) -> (r: u32)
        requires
            0 <= apply_spec(self@.next, current_frame) <= u32::MAX,
        ensures
            r == apply_spec(self@.next, current_frame),
    {
        self.next_frame.next(current_frame)
    }
}

pub open spec fn rules_view(rules: Seq<AnimationStateMachineRule>) -> Seq<RuleView> {
    rules.map_values(|r: AnimationStateMachineRule| r@)
}

/// The rules that choose an animation's next frame from its current frame and
/// the state of what it shows.
pub struct AnimationStateMachine {
    rules: Vec<AnimationStateMachineRule>,
}

impl AnimationStateMachine {
    pub closed spec fn spec_rules(&self) -> Seq<RuleView> {
        rules_view(self.rules@)
    }

    /// Reads one line, updating what has been read so far.
    fn read_line(
        c: &Vec<char>,
        lo: usize,
        hi: usize,
        states: &mut Vec<Vec<char>>,
        in_transitions: &mut bool,
        rules: &mut Vec<AnimationStateMachineRule>,
    ) -> (r: Result<(), AnimationError>)
        requires
            lo <= hi <= c@.len(),
        ensures
            match line_step(
                c@.subrange(lo as int, hi as int),
                ReadState {
                    states: states_view(old(states)@),
                    in_transitions: *old(in_transitions),
                    rules: rules_view(old(rules)@),
                },
            ) {
                Ok(st) => r is Ok && st == (ReadState {
                    states: states_view(final(states)@),
                    in_transitions: *final(in_transitions),
                    rules: rules_view(final(rules)@),
                }),
                Err(e) => r == Err::<(), AnimationError>(e),
            },
    {
        let ghost before = ReadState {
            states: states_view(states@),
            in_transitions: *in_transitions,
            rules: rules_view(rules@),
        };
        reveal(line_step);
        let (l0, l1) = trim_range(c, lo, hi);
        if l0 == l1 || c[l0] == '#' {
            return Ok(());
        }
        if range_is(c, l0, l1, "[STATES]") {
            *in_transitions = false;
        } else if range_is(c, l0, l1, "[TRANSITIONS]") {
            *in_transitions = true;
        } else if !*in_transitions {
            let line = copy_range(c, l0, l1);
            states.push(line);
            assert(states_view(states@) =~= before.states.push(c@.subrange(l0 as int, l1 as int)));
        } else {
            match AnimationStateMachineRule::new(c, l0, l1, states) {
                Err(e) => {
                    return Err(e);
                },
                Ok(rule) => {
                    let ghost v = rule@;
                    rules.push(rule);
                    assert(rules_view(rules@) =~= before.rules.push(v));
                },
            }
        }
        Ok(())
    }

    /// One step of reading: the first line, then the rest.
    proof fn lemma_read_lines_unfold(rest: Seq<char>, current: ReadState)
        ensures
            read_lines(rest, current) == match find_char(rest, '\n') {
                None => line_step(rest, current),
                Some(i) => if 0 <= i < rest.len() {
                    match line_step(rest.subrange(0, i), current) {
                        Err(e) => Err(e),
                        Ok(next) => read_lines(rest.subrange(i + 1, rest.len() as int), next),
                    }
                } else {
                    line_step(rest, current)
                },
            },
    {
    }

    /// Reads a description: state names, one per line, after `[STATES]` (where
    /// reading starts), and rules `FRAMES, STATE: NEXT` after `[TRANSITIONS]`.
    /// Blank lines and lines starting with `#` are skipped.
    #[verifier::rlimit(40)]
    pub fn new(text: &str) -> (r: Result<AnimationStateMachine, AnimationError>)
        ensures
            match machine_spec(text@) {
                Ok(rules) => r is Ok && r->Ok_0.spec_rules() == rules,
                Err(e) => r is Err && r->Err_0 == e,
            },
    {
        let c = chars_of(text);
        let n = c.len();
        let mut states: Vec<Vec<char>> = Vec::new();
        let mut in_transitions = false;
        let mut rules: Vec<AnimationStateMachineRule> = Vec::new();
        let mut pos: usize = 0;
        let ghost start = ReadState { states: Seq::empty(), in_transitions: false, rules: Seq::empty() };
        assert(states_view(states@) =~= Seq::<Seq<char>>::empty());
        assert(rules_view(rules@) =~= Seq::<RuleView>::empty());
        assert(c@.subrange(0, n as int) =~= c@);
        loop
            invariant
                n == c@.len(),
                c@ == text@,
                start == (ReadState { states: Seq::empty(), in_transitions: false, rules: Seq::empty() }),
                pos <= n,
                read_lines(c@, start) == read_lines(
                    c@.subrange(pos as int, n as int),
                    ReadState {
                        states: states_view(states@),
                        in_transitions,
                        rules: rules_view(rules@),
                    },
                ),
            decreases n - pos,
        {
            let ghost rest = c@.subrange(pos as int, n as int);
            proof {
                lemma_find_char(rest, '\n');
            }
            let newline = find_in_range(&c, pos, n, '\n');
            let end = match newline {
                Some(k) => k,
                None => n,
            };
            proof {
                if let Some(k) = newline {
                    lemma_subrange_of_subrange(c@, pos as int, n as int, 0, k - pos);
                    lemma_subrange_of_subrange(c@, pos as int, n as int, k + 1 - pos, n - pos);
                }
            }
            let ghost current = ReadState {
                states: states_view(states@),
                in_transitions,
                rules: rules_view(rules@),
            };
            proof {
                AnimationStateMachine::lemma_read_lines_unfold(rest, current);
            }
            match AnimationStateMachine::read_line(&c, pos, end, &mut states, &mut in_transitions, &mut rules) {
                Err(e) => {
                    assert(read_lines(rest, current) == Err::<ReadState, AnimationError>(e));
                    return Err(e);
                },
                Ok(()) => {},
            }
            let ghost after = ReadState {
                states: states_view(states@),
                in_transitions,
                rules: rules_view(rules@),
            };
            match newline {
                None => {
                    assert(c@.subrange(pos as int, end as int) == rest);
                    assert(read_lines(rest, current) == Ok::<ReadState, AnimationError>(after));
                    let m = AnimationStateMachine { rules };
                    assert(m.spec_rules() == after.rules);

                    return Ok(m);
                },
                Some(k) => {
                    assert(read_lines(rest, current) == read_lines(c@.subrange(k + 1, n as int), after));
                    pos = k + 1;
                },
            }
        }
    }

    /// The frame that follows `current_frame` in `current_state`: what the first
    /// rule that applies gives; an error when none applies.
    pub fn next_frame(&self, current_frame: u32, current_state: &str) -> (r: Result<u32, AnimationError>)
        requires
            forall|i: int|
                first_match(self.spec_rules(), i, current_frame, current_state@) ==> 0 <= apply_spec(
                    #[trigger] self.spec_rules()[i].next,
                    current_frame,
                ) <= u32::MAX,
        ensures
            match r {
                Ok(v) => exists|i: int|
                    first_match(self.spec_rules(), i, current_frame, current_state@) && v == apply_spec(
                        #[trigger] self.spec_rules()[i].next,
                        current_frame,
                    ),
                Err(e) => e == AnimationError::UnhandledCase && forall|i: int|
                    0 <= i < self.spec_rules().len() ==> !rule_matches(
                        #[trigger] self.spec_rules()[i],
                        current_frame,
                        current_state@,
                    ),
            },
    {
        let mut k: usize = 0;
        while k < self.rules.len()
            invariant
                k <= self.rules@.len(),
                forall|i: int|
                    first_match(self.spec_rules(), i, current_frame, current_state@) ==> 0 <= apply_spec(
                        #[trigger] self.spec_rules()[i].next,
                        current_frame,
                    ) <= u32::MAX,
                forall|j: int| 0 <= j < k ==> !rule_matches(#[trigger] self.spec_rules()[j], current_frame, current_state@),
            decreases self.rules@.len() - k,
        {
            let rule = &self.rules[k];
            assert(self.spec_rules()[k as int] == rule@);
            if rule.matches(current_frame, current_state) {
                assert(first_match(self.spec_rules(), k as int, current_frame, current_state@));
                assert(0 <= apply_spec(self.spec_rules()[k as int].next, current_frame) <= u32::MAX);
                let v = rule.apply(current_frame);
                return Ok(v);
            }
            k = k + 1;
        }
        Err(AnimationError::UnhandledCase)
    }
}

} // verus!
