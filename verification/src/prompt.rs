//! Prompt overlays that orient the model inside the Spine tree: the status
//! line, the context-pressure hints and the current trim targets.
use crate::ids::{node_id_text, NodeId};
use crate::items::copy_opt_string;
use crate::model::SpineError;
use crate::numfmt::{push_si, si_text};
use crate::tree_projection::{
    context_delta_fits, context_state_spec, find_open_node, find_snapshot_node, open_node_for, snapshot_node,
    OpenNodeContextProjection, SpineTreeSnapshot,
};
use crate::text::{
    chars_of, dec, eq_chars, is_whitespace, is_ws, push_all, push_str, push_u64, str_eq, string_of, trim,
    trim_spec,
};
use vstd::prelude::*;

verus! {

pub const SPINE_BOUNDARY_HINT_FIRST_TOKENS: i64 = 50_000;

pub const SPINE_BOUNDARY_HINT_STEP_TOKENS: i64 = 25_000;

pub const SPINE_CONTEXT_WARNING_RATIO_NUM: i64 = 80;

pub const SPINE_CONTEXT_WARNING_RATIO_DEN: i64 = 100;

pub const SPINE_TRIM_TARGET_HEAD_CHARS: usize = 80;

pub const SPINE_TRIM_TARGET_LIMIT: usize = 8;

pub const SPINE_TRIM_TAIL_GUIDANCE: &'static str = "At natural Spine boundaries, close/next with compact continuation memory, or open a child for a narrower blocker. For the latest tool outputs listed below, trim irrelevant noisy content now, or slice to keep only needed evidence; preserve any facts needed for continuation before trimming.";

pub const SPINE_CLOSE_GUIDANCE: &'static str = "\nBefore broadening the work, check whether the current node can be closed with useful continuation memory.\nIf it can, close it and continue in a sibling if needed; only close/next compacts history and reduces future prompt context.\nIf the current thought is still unfinished, continue in this node; do not open another child unless it is a strictly narrower blocker, because opening by itself does not reduce context.";

pub const SPINE_PLAN_MODE_CONTEXT_GUIDANCE: &'static str = "\nPrioritize summarizing the current decision before broadening the investigation.\nAvoid expanding scope while mutating Spine operations are unavailable in Plan mode.";

// ----------------------------------------------------------------------------
// Thresholds
// ----------------------------------------------------------------------------
/// The pressure band of a node's context size: 50k, then steps of 25k.
pub open spec fn pressure_band_spec(tokens: int) -> Option<int> {
    if tokens < 50000 {
        None
    } else {
        Some(50000 + ((tokens - 50000) / 25000) * 25000)
    }
}

/// The band a node's context size falls in; `None` below 50k tokens.
pub fn pressure_band(tokens: i64) -> (r: Option<i64>)
    ensures
        match pressure_band_spec(tokens as int) {
            Some(b) => r == Some(b as i64),
            None => r is None,
        },
{
    if tokens < SPINE_BOUNDARY_HINT_FIRST_TOKENS {
        return None;
    }
    let steps = (tokens - SPINE_BOUNDARY_HINT_FIRST_TOKENS) / SPINE_BOUNDARY_HINT_STEP_TOKENS;
    assert(steps * 25000 <= tokens - 50000) by (nonlinear_arith)
        requires
            steps == (tokens - 50000) / 25000,
            tokens >= 50000,
    ;
    Some(SPINE_BOUNDARY_HINT_FIRST_TOKENS + steps * SPINE_BOUNDARY_HINT_STEP_TOKENS)
}

/// `a * k` saturated to the `i64` range (`i64::saturating_mul`).
pub open spec fn sat_mul(a: int, k: int) -> int {
    if a * k > i64::MAX {
        i64::MAX as int
    } else if a * k < i64::MIN {
        i64::MIN as int
    } else {
        a * k
    }
}

/// `a * k` saturated to the `i64` range.
pub fn saturating_mul_i64(a: i64, k: i64) -> (r: i64)
    ensures
        r == sat_mul(a as int, k as int),
{
    let wa = a as i128;
    let wk = k as i128;
    assert(-0x8000_0000_0000_0000_0000_0000_0000_0000 < wa * wk < 0x8000_0000_0000_0000_0000_0000_0000_0000)
        by (nonlinear_arith)
        requires
            -0x8000_0000_0000_0000 <= wa < 0x8000_0000_0000_0000,
            -0x8000_0000_0000_0000 <= wk < 0x8000_0000_0000_0000,
    ;
    let p = wa * wk;
    if p > i64::MAX as i128 {
        i64::MAX
    } else if p < i64::MIN as i128 {
        i64::MIN
    } else {
        p as i64
    }
}

/// The context window is at least 80% full: `tokens * 100 >= window * 80`.
pub open spec fn at_or_above_80_spec(context_tokens: int, window: int) -> bool {
    context_tokens > 0 && window > 0 && sat_mul(context_tokens, 100) >= sat_mul(window, 80)
}

/// Whether the context uses at least 80% of the window (saturating arithmetic).
pub fn context_window_at_or_above_80(context_tokens: i64, window: i64) -> (r: bool)
    ensures
        r == at_or_above_80_spec(context_tokens as int, window as int),
{
    if context_tokens <= 0 || window <= 0 {
        return false;
    }
    saturating_mul_i64(context_tokens, SPINE_CONTEXT_WARNING_RATIO_DEN) >= saturating_mul_i64(
        window,
        SPINE_CONTEXT_WARNING_RATIO_NUM,
    )
}

// ----------------------------------------------------------------------------
// Escaping
// ----------------------------------------------------------------------------
/// The escape of one character inside an XML attribute.
pub open spec fn xml_escape_char(c: char) -> Seq<char> {
    if c == '&' {
        seq!['&', 'a', 'm', 'p', ';']
    } else if c == '<' {
        seq!['&', 'l', 't', ';']
    } else if c == '>' {
        seq!['&', 'g', 't', ';']
    } else if c == '"' {
        seq!['&', 'q', 'u', 'o', 't', ';']
    } else {
        seq![c]
    }
}

/// The text escaped for an XML attribute (`&`, `<`, `>`, `"`).
pub open spec fn xml_escape(s: Seq<char>) -> Seq<char>
    decreases s.len(),
{
    if s.len() == 0 {
        Seq::empty()
    } else {
        xml_escape(s.drop_last()) + xml_escape_char(s.last())
    }
}

/// Appends `s` escaped for an XML attribute.
pub fn push_escaped(v: &mut Vec<char>, s: &Vec<char>)
    ensures
        final(v)@ == old(v)@ + xml_escape(s@),
{
    let mut i: usize = 0;
    while i < s.len()
        invariant
            i <= s.len(),
            v@ == old(v)@ + xml_escape(s@.subrange(0, i as int)),
        decreases s.len() - i,
    {
        let c = s[i];
        let ghost before = v@;
        if c == '&' {
            v.push('&');
            v.push('a');
            v.push('m');
            v.push('p');
            v.push(';');
        } else if c == '<' {
            v.push('&');
            v.push('l');
            v.push('t');
            v.push(';');
        } else if c == '>' {
            v.push('&');
            v.push('g');
            v.push('t');
            v.push(';');
        } else if c == '"' {
            v.push('&');
            v.push('q');
            v.push('u');
            v.push('o');
            v.push('t');
            v.push(';');
        } else {
            v.push(c);
        }
        assert(v@ =~= before + xml_escape_char(c));
        assert(s@.subrange(0, i + 1).drop_last() =~= s@.subrange(0, i as int));
        assert(v@ =~= old(v)@ + xml_escape(s@.subrange(0, i + 1)));
        i = i + 1;
    }
    assert(s@.subrange(0, s.len() as int) =~= s@);
}

/// Escapes `&`, `<`, `>` and `"` for an XML attribute.
pub fn escape_xml_attribute(input: &str) -> (r: String)
    ensures
        r@ == xml_escape(input@),
{
    let mut v: Vec<char> = Vec::new();
    push_escaped(&mut v, &chars_of(input));
    assert(v@ =~= xml_escape(input@));
    string_of(&v)
}

/// Reads an XML attribute text back: `&amp;`, `&lt;`, `&gt;` and `&quot;`
/// stand for the characters they escape; every other character for itself.
pub open spec fn xml_unescape(t: Seq<char>) -> Seq<char>
    decreases t.len(),
{
    if t.len() == 0 {
        Seq::empty()
    } else if t.len() >= 5 && t.take(5) == seq!['&', 'a', 'm', 'p', ';'] {
        seq!['&'] + xml_unescape(t.skip(5))
    } else if t.len() >= 4 && t.take(4) == seq!['&', 'l', 't', ';'] {
        seq!['<'] + xml_unescape(t.skip(4))
    } else if t.len() >= 4 && t.take(4) == seq!['&', 'g', 't', ';'] {
        seq!['>'] + xml_unescape(t.skip(4))
    } else if t.len() >= 6 && t.take(6) == seq!['&', 'q', 'u', 'o', 't', ';'] {
        seq!['"'] + xml_unescape(t.skip(6))
    } else {
        seq![t[0]] + xml_unescape(t.skip(1))
    }
}

proof fn lemma_xml_escape_concat(a: Seq<char>, b: Seq<char>)
    ensures
        xml_escape(a + b) == xml_escape(a) + xml_escape(b),
    decreases b.len(),
{
    if b.len() == 0 {
        assert(a + b =~= a);
        assert(xml_escape(a) + xml_escape(b) =~= xml_escape(a));
    } else {
        lemma_xml_escape_concat(a, b.drop_last());
        assert((a + b).drop_last() =~= a + b.drop_last());
        assert((a + b).last() == b.last());
        assert(xml_escape(a + b) =~= xml_escape(a) + xml_escape(b));
    }
}

proof fn lemma_unescape_char(c: char, rest: Seq<char>)
    ensures
        xml_unescape(xml_escape_char(c) + rest) == seq![c] + xml_unescape(rest),
{
    let t = xml_escape_char(c) + rest;
    let n = xml_escape_char(c).len() as int;
    assert(t.skip(n) =~= rest);
    if c == '&' {
        assert(t.take(5) =~= seq!['&', 'a', 'm', 'p', ';']);
    } else if c == '<' {
        assert(t.take(4) =~= seq!['&', 'l', 't', ';']);
        assert(t.take(5) != seq!['&', 'a', 'm', 'p', ';'] || t.len() < 5) by {
            if t.len() >= 5 {
                assert(t.take(5)[1] == 'l');
            }
        }
    } else if c == '>' {
        assert(t.take(4) =~= seq!['&', 'g', 't', ';']);
        if t.len() >= 5 {
            assert(t.take(5)[1] == 'g');
        }
        assert(t.take(4)[1] == 'g');
    } else if c == '"' {
        assert(t.take(6) =~= seq!['&', 'q', 'u', 'o', 't', ';']);
        assert(t.take(5)[1] == 'q');
        assert(t.take(4)[1] == 'q');
    } else {
        assert(t[0] == c);
        if t.len() >= 4 {
            assert(t.take(4)[0] == c);
        }
        if t.len() >= 5 {
            assert(t.take(5)[0] == c);
        }
        if t.len() >= 6 {
            assert(t.take(6)[0] == c);
        }
    }
}

/// Escaping for an XML attribute leaves no `<`, `>` or `"` in the text, and
/// reading the escaped text back gives the input.
pub proof fn lemma_xml_escape_round_trip(s: Seq<char>)
    ensures
        !xml_escape(s).contains('<'),
        !xml_escape(s).contains('>'),
        !xml_escape(s).contains('"'),
        xml_unescape(xml_escape(s)) == s,
        xml_escape(s).len() >= s.len(),
    decreases s.len(),
{
    if s.len() > 0 {
        let rest = s.drop_first();
        lemma_xml_escape_round_trip(rest);
        lemma_xml_escape_concat(seq![s[0]], rest);
        assert(seq![s[0]] + rest =~= s);
        assert(xml_escape(seq![s[0]]) =~= xml_escape_char(s[0])) by {
            let one = seq![s[0]];
            assert(one.drop_last() =~= Seq::<char>::empty());
            assert(xml_escape(one.drop_last()) == Seq::<char>::empty());
            assert(one.last() == s[0]);
            assert(xml_escape(one) == xml_escape(one.drop_last()) + xml_escape_char(one.last()));
        }
        lemma_unescape_char(s[0], xml_escape(rest));
        let e = xml_escape(s);
        assert(e == xml_escape_char(s[0]) + xml_escape(rest));
        assert forall|c: char| c == '<' || c == '>' || c == '"' implies !e.contains(c) by {
            if e.contains(c) {
                let k = choose|k: int| 0 <= k < e.len() && e[k] == c;
                let n = xml_escape_char(s[0]).len() as int;
                if k >= n {
                    assert(xml_escape(rest)[k - n] == c);
                    assert(xml_escape(rest).contains(c));
                }
            }
        }
    }
}

/// A summary attribute is never empty and holds no `<`, `>` or `"`.
pub proof fn lemma_summary_attribute_safe(summary: Option<Seq<char>>)
    ensures
        summary_attribute_spec(summary).len() > 0,
        !summary_attribute_spec(summary).contains('<'),
        !summary_attribute_spec(summary).contains('>'),
        !summary_attribute_spec(summary).contains('"'),
{
    if let Some(s) = summary {
        lemma_xml_escape_round_trip(trim_spec(s));
    }
    let r = summary_attribute_spec(summary);
    if r == seq!['n', 'o', 'n', 'e'] {
        assert forall|c: char| c == '<' || c == '>' || c == '"' implies !r.contains(c) by {
            if r.contains(c) {
                let k = choose|k: int| 0 <= k < r.len() && r[k] == c;
            }
        }
    }
}

/// The trimmed, escaped summary, or `none` when it is absent or blank.
pub open spec fn summary_attribute_spec(summary: Option<Seq<char>>) -> Seq<char> {
    match summary {
        Some(s) => if trim_spec(s).len() > 0 {
            xml_escape(trim_spec(s))
        } else {
            seq!['n', 'o', 'n', 'e']
        },
        None => seq!['n', 'o', 'n', 'e'],
    }
}

fn none_text() -> (r: Vec<char>)
    ensures
        r@ == seq!['n', 'o', 'n', 'e'],
{
    let mut r: Vec<char> = Vec::new();
    r.push('n');
    r.push('o');
    r.push('n');
    r.push('e');
    assert(r@ =~= seq!['n', 'o', 'n', 'e']);
    r
}

/// A summary attribute value: trimmed and escaped, or `none` when absent or blank.
pub fn format_optional_summary_attribute(summary: Option<&str>) -> (r: String)
    ensures
        r@ == summary_attribute_spec(match summary {
            Some(s) => Some(s@),
            None => None,
        }),
{
    match summary {
        Some(s) => {
            let t = trim(&chars_of(s));
            if t.len() > 0 {
                let mut v: Vec<char> = Vec::new();
                push_escaped(&mut v, &t);
                assert(v@ =~= xml_escape(t@));
                string_of(&v)
            } else {
                string_of(&none_text())
            }
        },
        None => string_of(&none_text()),
    }
}

// ----------------------------------------------------------------------------
// Pressure prompt state
// ----------------------------------------------------------------------------
/// What was last shown to the model, so that hints are not repeated.
#[derive(Clone, Debug, Default, PartialEq, Eq)]
pub struct SpinePressurePromptState {
    pub last_boundary_hint: Option<(String, i64)>,
    pub context_warning_80_node: Option<String>,
}

/// What one prompt is about to show.
#[derive(Clone, Debug, Default, PartialEq, Eq)]
pub struct SpinePressurePromptEmission {
    pub boundary_hint: Option<(String, i64)>,
    pub context_warning_80_node: Option<String>,
}

/// The pressure signal for the cursor node.
#[derive(Clone, Debug, PartialEq, Eq)]
pub struct SpinePressurePromptSignal {
    pub node_id: String,
    pub node_summary: Option<String>,
    pub cursor_node_context_tokens: Option<i64>,
    pub boundary_hint_band: Option<i64>,
    pub context_tokens: Option<i64>,
    pub model_context_window: Option<i64>,
    pub emit_context_warning_80: bool,
    pub mode_allows_spine_close: bool,
}

/// An optional node/band pair over plain values.
pub open spec fn hint_view(h: Option<(String, i64)>) -> Option<(Seq<char>, i64)> {
    match h {
        Some((n, b)) => Some((n@, b)),
        None => None,
    }
}

/// An optional node over plain values.
pub open spec fn node_view(n: Option<String>) -> Option<Seq<char>> {
    match n {
        Some(s) => Some(s@),
        None => None,
    }
}

impl SpinePressurePromptEmission {
    /// Nothing would be shown.
    pub fn is_empty(&self) -> (r: bool)
        ensures
            r == (self.boundary_hint is None && self.context_warning_80_node is None),
    {
        self.boundary_hint.is_none() && self.context_warning_80_node.is_none()
    }
}

fn opt_str_eq(a: &Option<String>, b: &String) -> (r: bool)
    ensures
        r == (node_view(*a) == Some(b@)),
{
    match a {
        Some(x) => eq_chars(&chars_of(x.as_str()), &chars_of(b.as_str())),
        None => false,
    }
}

impl SpinePressurePromptState {
    /// Drops the parts of the signal that were already shown for this node and
    /// band, and says what the prompt will show.
    pub fn prepare_emission(&self, signal: &mut SpinePressurePromptSignal) -> (e: SpinePressurePromptEmission)
        ensures
            final(signal).node_id == old(signal).node_id,
            final(signal).node_summary == old(signal).node_summary,
            final(signal).cursor_node_context_tokens == old(signal).cursor_node_context_tokens,
            final(signal).context_tokens == old(signal).context_tokens,
            final(signal).model_context_window == old(signal).model_context_window,
            final(signal).mode_allows_spine_close == old(signal).mode_allows_spine_close,
            final(signal).boundary_hint_band == (match old(signal).boundary_hint_band {
                Some(b) => if hint_view(self.last_boundary_hint) == Some((old(signal).node_id@, b)) {
                    None
                } else {
                    Some(b)
                },
                None => None,
            }),
            final(signal).emit_context_warning_80 == (old(signal).emit_context_warning_80
                && node_view(self.context_warning_80_node) != Some(old(signal).node_id@)),
            hint_view(e.boundary_hint) == match final(signal).boundary_hint_band {
                Some(b) => Some((old(signal).node_id@, b)),
                None => None,
            },
            node_view(e.context_warning_80_node) == (if final(signal).emit_context_warning_80 {
                Some(old(signal).node_id@)
            } else {
                None
            }),
    {
        match signal.boundary_hint_band {
            Some(band) => {
                let same = match &self.last_boundary_hint {
                    Some((node, last_band)) => *last_band == band && eq_chars(
                        &chars_of(node.as_str()),
                        &chars_of(signal.node_id.as_str()),
                    ),
                    None => false,
                };
                if same {
                    signal.boundary_hint_band = None;
                }
            },
            None => {},
        }
        if signal.emit_context_warning_80 && opt_str_eq(
            &self.context_warning_80_node,
            &signal.node_id,
        ) {
            signal.emit_context_warning_80 = false;
        }
        let boundary_hint = match signal.boundary_hint_band {
            Some(band) => Some((signal.node_id.clone(), band)),
            None => None,
        };
        let context_warning_80_node = if signal.emit_context_warning_80 {
            Some(signal.node_id.clone())
        } else {
            None
        };
        SpinePressurePromptEmission { boundary_hint, context_warning_80_node }
    }

    /// Records what a prompt showed.
    pub fn mark_sent(&mut self, emission: SpinePressurePromptEmission)
        ensures
            hint_view(final(self).last_boundary_hint) == match emission.boundary_hint {
                Some(h) => hint_view(Some(h)),
                None => hint_view(old(self).last_boundary_hint),
            },
            node_view(final(self).context_warning_80_node) == match emission.context_warning_80_node {
                Some(n) => Some(n@),
                None => node_view(old(self).context_warning_80_node),
            },
    {
        match emission.boundary_hint {
            Some(h) => {
                self.last_boundary_hint = Some(h);
            },
            None => {},
        }
        match emission.context_warning_80_node {
            Some(n) => {
                self.context_warning_80_node = Some(n);
            },
            None => {},
        }
    }
}

/// What `prepare_emission` would show for a signal, over plain values.
pub open spec fn emission_spec(
    last: Option<(Seq<char>, i64)>,
    warned: Option<Seq<char>>,
    node: Seq<char>,
    band: Option<i64>,
    emit: bool,
) -> (Option<(Seq<char>, i64)>, Option<Seq<char>>) {
    let b = match band {
        Some(x) => if last == Some((node, x)) {
            None
        } else {
            Some(x)
        },
        None => None,
    };
    let w = emit && warned != Some(node);
    (
        match b {
            Some(x) => Some((node, x)),
            None => None,
        },
        if w {
            Some(node)
        } else {
            None
        },
    )
}

/// A hint is shown at most once per node and band, and the 80% warning at
/// most once per node: after a prompt's emission is marked sent, preparing
/// the same signal again shows nothing.
pub proof fn lemma_pressure_hints_not_repeated(
    last: Option<(Seq<char>, i64)>,
    warned: Option<Seq<char>>,
    node: Seq<char>,
    band: Option<i64>,
    emit: bool,
)
    ensures
        ({
            let (eb, ew) = emission_spec(last, warned, node, band, emit);
            let last2 = match eb {
                Some(h) => Some(h),
                None => last,
            };
            let warned2 = match ew {
                Some(n) => Some(n),
                None => warned,
            };
            emission_spec(last2, warned2, node, band, emit) == (
                None::<(Seq<char>, i64)>,
                None::<Seq<char>>,
            )
        }),
{
}

// ----------------------------------------------------------------------------
// Pressure prompt text
// ----------------------------------------------------------------------------
/// `a / b` truncated toward zero, as Rust's integer division.
pub open spec fn trunc_div(a: int, b: int) -> int {
    if (a >= 0) == (b > 0) {
        (if a >= 0 { a } else { -a }) / (if b >= 0 { b } else { -b })
    } else {
        -((if a >= 0 { a } else { -a }) / (if b >= 0 { b } else { -b }))
    }
}

/// The percentage of the window used: `tokens * 100 / window` clamped to `0..=100`.
pub open spec fn context_percent(tokens: int, window: int) -> int {
    let q = if sat_mul(tokens, 100) == i64::MIN && window == -1 {
        i64::MAX as int
    } else {
        trunc_div(sat_mul(tokens, 100), window)
    };
    if q < 0 {
        0
    } else if q > 100 {
        100
    } else {
        q
    }
}

fn context_percent_exec(tokens: i64, window: i64) -> (r: i64)
    requires
        window != 0,
    ensures
        r as int == context_percent(tokens as int, window as int),
{
    let p = saturating_mul_i64(tokens, 100);
    let q: i128 = if p == i64::MIN && window == -1 {
        i64::MAX as i128
    } else {
        let pa: i128 = if p >= 0 { p as i128 } else { -(p as i128) };
        let wa: i128 = if window >= 0 { window as i128 } else { -(window as i128) };
        if (p >= 0) == (window > 0) {
            pa / wa
        } else {
            -(pa / wa)
        }
    };
    if q < 0 {
        0
    } else if q > 100 {
        100
    } else {
        q as i64
    }
}

/// The summary as it appears in the boundary hint: ` "escaped"` or nothing.
pub open spec fn hint_summary_spec(summary: Option<Seq<char>>) -> Seq<char> {
    match summary {
        Some(s) => if trim_spec(s).len() > 0 {
            seq![' ', '"'] + xml_escape(trim_spec(s)) + seq!['"']
        } else {
            Seq::empty()
        },
        None => Seq::empty(),
    }
}

/// The boundary hint text for a cursor node of `cursor_tokens` tokens.
pub open spec fn boundary_hint_spec(signal: SpinePressurePromptSignal, cursor_tokens: i64) -> Seq<char> {
    "Spine node context hint: current cursor node "@ + signal.node_id@ + hint_summary_spec(
        node_view(signal.node_summary),
    ) + " is using ~"@ + si_text(cursor_tokens as int) + " context tokens"@ + match (
        signal.context_tokens,
        signal.model_context_window,
    ) {
        (Some(c), Some(w)) => "; overall context window is ~"@ + si_text(c as int) + " / "@
            + si_text(w as int),
        _ => Seq::empty(),
    } + seq!['.'] + SPINE_CLOSE_GUIDANCE@
}

/// The context warning text.
pub open spec fn context_warning_spec(signal: SpinePressurePromptSignal, c: i64, w: i64) -> Seq<char> {
    "Spine context warning: current prompt uses ~"@ + si_text(c as int) + " / "@ + si_text(
        w as int,
    ) + " context tokens (~"@ + dec(context_percent(c as int, w as int) as nat) + "%)."@ + (
    if signal.mode_allows_spine_close {
        SPINE_CLOSE_GUIDANCE@
    } else {
        SPINE_PLAN_MODE_CONTEXT_GUIDANCE@
    })
}

/// The sections of the pressure overlay.
pub open spec fn pressure_sections(signal: SpinePressurePromptSignal) -> Seq<Seq<char>> {
    let hint = if signal.boundary_hint_band is Some && signal.mode_allows_spine_close {
        match signal.cursor_node_context_tokens {
            Some(t) => seq![boundary_hint_spec(signal, t)],
            None => Seq::empty(),
        }
    } else {
        Seq::empty()
    };
    let warn = if signal.emit_context_warning_80 {
        match (signal.context_tokens, signal.model_context_window) {
            (Some(c), Some(w)) => seq![context_warning_spec(signal, c, w)],
            _ => Seq::empty(),
        }
    } else {
        Seq::empty()
    };
    hint + warn
}

/// Sections joined by a blank line.
pub open spec fn join_blank_lines(sections: Seq<Seq<char>>) -> Seq<char>
    decreases sections.len(),
{
    if sections.len() == 0 {
        Seq::empty()
    } else if sections.len() == 1 {
        sections[0]
    } else {
        join_blank_lines(sections.drop_last()) + seq!['\n', '\n'] + sections.last()
    }
}

/// The boundary hint for the cursor node, when its context size is known.
pub fn format_boundary_hint(signal: &SpinePressurePromptSignal) -> (r: Option<Vec<char>>)
    ensures
        match signal.cursor_node_context_tokens {
            None => r is None,
            Some(cursor_tokens) => r matches Some(t) && t@ == boundary_hint_spec(*signal, cursor_tokens),
        },
{
    let cursor_tokens = match signal.cursor_node_context_tokens {
        Some(t) => t,
        None => return None,
    };
    let mut t: Vec<char> = Vec::new();
    push_str(&mut t, "Spine node context hint: current cursor node ");
    push_all(&mut t, &chars_of(signal.node_id.as_str()));
    let ghost after_node = t@;
    match &signal.node_summary {
        Some(s) => {
            let tr = trim(&chars_of(s.as_str()));
            if tr.len() > 0 {
                t.push(' ');
                t.push('"');
                push_escaped(&mut t, &tr);
                t.push('"');
            }
        },
        None => {},
    }
    assert(t@ =~= after_node + hint_summary_spec(node_view(signal.node_summary)));
    push_str(&mut t, " is using ~");
    push_si(&mut t, cursor_tokens);
    push_str(&mut t, " context tokens");
    match (signal.context_tokens, signal.model_context_window) {
        (Some(c), Some(w)) => {
            push_str(&mut t, "; overall context window is ~");
            push_si(&mut t, c);
            push_str(&mut t, " / ");
            push_si(&mut t, w);
        },
        _ => {},
    }
    t.push('.');
    push_str(&mut t, SPINE_CLOSE_GUIDANCE);
    assert(t@ =~= boundary_hint_spec(*signal, cursor_tokens));
    Some(t)
}

/// The context warning, when both the context size and the window are known.
pub fn format_context_warning(signal: &SpinePressurePromptSignal) -> (r: Option<Vec<char>>)
    requires
        signal.model_context_window != Some(0i64),
    ensures
        match (signal.context_tokens, signal.model_context_window) {
            (Some(c), Some(w)) => r matches Some(t) && t@ == context_warning_spec(*signal, c, w),
            _ => r is None,
        },
{
    let context_tokens = match signal.context_tokens {
        Some(c) => c,
        None => return None,
    };
    let window = match signal.model_context_window {
        Some(w) => w,
        None => return None,
    };
    let percent = context_percent_exec(context_tokens, window);
    let mut t: Vec<char> = Vec::new();
    push_str(&mut t, "Spine context warning: current prompt uses ~");
    push_si(&mut t, context_tokens);
    push_str(&mut t, " / ");
    push_si(&mut t, window);
    push_str(&mut t, " context tokens (~");
    push_u64(&mut t, percent as u64);
    push_str(&mut t, "%).");
    if signal.mode_allows_spine_close {
        push_str(&mut t, SPINE_CLOSE_GUIDANCE);
    } else {
        push_str(&mut t, SPINE_PLAN_MODE_CONTEXT_GUIDANCE);
    }
    assert(t@ =~= context_warning_spec(*signal, context_tokens, window));
    Some(t)
}

/// The pressure overlay: the boundary hint (when a band is set and closing is
/// allowed) and the 80% warning, joined by a blank line; `None` when neither.
pub fn format_spine_pressure_prompt_overlay(signal: &SpinePressurePromptSignal) -> (r: Option<String>)
    requires
        signal.emit_context_warning_80 ==> signal.model_context_window != Some(0i64),
    ensures
        pressure_sections(*signal).len() == 0 ==> r is None,
        pressure_sections(*signal).len() > 0 ==> (r matches Some(t) && t@ == join_blank_lines(
            pressure_sections(*signal),
        )),
{
    let mut sections: Vec<Vec<char>> = Vec::new();
    let ghost secs = pressure_sections(*signal);
    if signal.boundary_hint_band.is_some() && signal.mode_allows_spine_close {
        match format_boundary_hint(signal) {
            Some(section) => sections.push(section),
            None => {},
        }
    }
    if signal.emit_context_warning_80 {
        match format_context_warning(signal) {
            Some(section) => sections.push(section),
            None => {},
        }
    }
    assert(sections@.map_values(|v: Vec<char>| v@) =~= secs);
    if sections.len() == 0 {
        return None;
    }
    let mut out: Vec<char> = Vec::new();
    let mut i: usize = 0;
    while i < sections.len()
        invariant
            i <= sections.len(),
            sections@.map_values(|v: Vec<char>| v@) == secs,
            out@ == join_blank_lines(secs.subrange(0, i as int)),
        decreases sections.len() - i,
    {
        let ghost before = out@;
        if i > 0 {
            out.push('\n');
            out.push('\n');
        }
        push_all(&mut out, &sections[i]);
        proof {
            let sub = secs.subrange(0, i + 1);
            assert(sub.drop_last() =~= secs.subrange(0, i as int));
            assert(secs[i as int] == sections@[i as int]@);
            assert(out@ =~= join_blank_lines(sub));
        }
        i = i + 1;
    }
    assert(secs.subrange(0, sections.len() as int) =~= secs);
    Some(string_of(&out))
}

// ----------------------------------------------------------------------------
// Status overlay
// ----------------------------------------------------------------------------
/// The status of the cursor node.
#[derive(Clone, Debug, PartialEq, Eq)]
pub struct SpineStatusPromptSignal {
    pub cursor: String,
    pub node_summary: Option<String>,
    pub parent: Option<String>,
    pub parent_summary: Option<String>,
    pub cursor_node_context_tokens: Option<i64>,
    pub context_left_tokens: Option<i64>,
}

/// A token count, or `unavailable`.
pub open spec fn tokens_or_unavailable(t: Option<i64>) -> Seq<char> {
    match t {
        Some(n) => si_text(n as int),
        None => "unavailable"@,
    }
}

fn push_tokens_or_unavailable(v: &mut Vec<char>, t: Option<i64>)
    ensures
        final(v)@ == old(v)@ + tokens_or_unavailable(t),
{
    match t {
        Some(n) => push_si(v, n),
        None => push_str(v, "unavailable"),
    }
}

/// The `<spine_status .../>` line of a status signal.
pub open spec fn status_line_spec(signal: SpineStatusPromptSignal) -> Seq<char> {
    "<spine_status cursor=\""@ + signal.cursor@ + "\" summary=\""@ + summary_attribute_spec(
        node_view(signal.node_summary),
    ) + "\" parent=\""@ + (match signal.parent {
        Some(p) => p@,
        None => seq!['n', 'o', 'n', 'e'],
    }) + "\" parent_summary=\""@ + summary_attribute_spec(node_view(signal.parent_summary))
        + "\" cursor_context=\""@ + tokens_or_unavailable(signal.cursor_node_context_tokens)
        + "\" context_left=\""@ + tokens_or_unavailable(signal.context_left_tokens) + "\" />"@
}

/// The `<spine_status .../>` line for the cursor node.
pub fn format_spine_status_prompt_overlay(signal: &SpineStatusPromptSignal) -> (r: String)
    ensures
        r@ == status_line_spec(*signal),
{
    let summary = match &signal.node_summary {
        Some(s) => format_optional_summary_attribute(Some(s.as_str())),
        None => format_optional_summary_attribute(None),
    };
    let parent_summary = match &signal.parent_summary {
        Some(s) => format_optional_summary_attribute(Some(s.as_str())),
        None => format_optional_summary_attribute(None),
    };
    let mut v: Vec<char> = Vec::new();
    push_str(&mut v, "<spine_status cursor=\"");
    push_str(&mut v, signal.cursor.as_str());
    push_str(&mut v, "\" summary=\"");
    push_str(&mut v, summary.as_str());
    push_str(&mut v, "\" parent=\"");
    match &signal.parent {
        Some(p) => push_str(&mut v, p.as_str()),
        None => push_all(&mut v, &none_text()),
    }
    push_str(&mut v, "\" parent_summary=\"");
    push_str(&mut v, parent_summary.as_str());
    push_str(&mut v, "\" cursor_context=\"");
    push_tokens_or_unavailable(&mut v, signal.cursor_node_context_tokens);
    push_str(&mut v, "\" context_left=\"");
    push_tokens_or_unavailable(&mut v, signal.context_left_tokens);
    push_str(&mut v, "\" />");
    assert(v@ =~= status_line_spec(*signal));
    string_of(&v)
}

// ----------------------------------------------------------------------------
// Trim targets overlay
// ----------------------------------------------------------------------------
/// A tool output that the model may trim.
#[derive(Clone, Debug, PartialEq, Eq)]
pub struct SpineCurrentTrimTarget {
    pub trim_id: String,
    pub original_visible_size: u64,
    pub visible_body: String,
}

/// Whitespace runs collapsed to one space and the ends trimmed
/// (`split_whitespace().collect::<Vec<_>>().join(" ")`), with a flag telling
/// whether a space is pending before the next word.
pub open spec fn collapse_ws(s: Seq<char>) -> (Seq<char>, bool)
    decreases s.len(),
{
    if s.len() == 0 {
        (Seq::empty(), false)
    } else {
        let (o, pending) = collapse_ws(s.drop_last());
        let c = s.last();
        if is_ws(c) {
            (o, o.len() > 0)
        } else if pending {
            (o.push(' ').push(c), false)
        } else {
            (o.push(c), false)
        }
    }
}

/// The words of `s` joined by single spaces.
pub fn collapse_whitespace(s: &Vec<char>) -> (r: Vec<char>)
    ensures
        r@ == collapse_ws(s@).0,
{
    let mut out: Vec<char> = Vec::new();
    let mut pending = false;
    let mut i: usize = 0;
    while i < s.len()
        invariant
            i <= s.len(),
            collapse_ws(s@.subrange(0, i as int)) == (out@, pending),
        decreases s.len() - i,
    {
        let c = s[i];
        assert(s@.subrange(0, i + 1).drop_last() =~= s@.subrange(0, i as int));
        if is_whitespace(c) {
            pending = out.len() > 0;
        } else {
            if pending {
                out.push(' ');
            }
            out.push(c);
            pending = false;
        }
        i = i + 1;
    }
    assert(s@.subrange(0, s.len() as int) =~= s@);
    out
}

/// The head shown for a trim target: the collapsed body cut at 80 characters,
/// with `...` when it was longer.
pub open spec fn trim_head_spec(body: Seq<char>) -> Seq<char> {
    let c = collapse_ws(body).0;
    if c.len() > 80 {
        c.subrange(0, 80) + seq!['.', '.', '.']
    } else {
        c
    }
}

/// One line of the trim targets list.
pub open spec fn trim_target_line(index: nat, target: SpineCurrentTrimTarget) -> Seq<char> {
    seq!['\n'] + dec(index) + " id=\""@ + xml_escape(target.trim_id@) + "\" bytes=\""@ + dec(
        target.original_visible_size as nat,
    ) + "\" head=\""@ + xml_escape(trim_head_spec(target.visible_body@)) + seq!['"']
}

/// The lines of the first `n` targets.
pub open spec fn trim_target_lines(targets: Seq<SpineCurrentTrimTarget>, n: nat) -> Seq<char>
    decreases n,
{
    if n == 0 {
        Seq::empty()
    } else {
        trim_target_lines(targets, (n - 1) as nat) + trim_target_line((n - 1) as nat, targets[n - 1])
    }
}

/// Appends the line of target `i`: its id, size and head.
fn push_trim_target_line(text: &mut Vec<char>, i: usize, target: &SpineCurrentTrimTarget)
    ensures
        final(text)@ == old(text)@ + trim_target_line(i as nat, *target),
{
    let compact_head = collapse_whitespace(&chars_of(target.visible_body.as_str()));
    let mut head: Vec<char> = if compact_head.len() > SPINE_TRIM_TARGET_HEAD_CHARS {
        crate::text::slice_chars(&compact_head, 0, SPINE_TRIM_TARGET_HEAD_CHARS)
    } else {
        crate::text::slice_chars(&compact_head, 0, compact_head.len())
    };
    if compact_head.len() > SPINE_TRIM_TARGET_HEAD_CHARS {
        head.push('.');
        head.push('.');
        head.push('.');
    }
    assert(head@ =~= trim_head_spec(target.visible_body@));
    text.push('\n');
    push_u64(text, i as u64);
    push_str(text, " id=\"");
    push_escaped(text, &chars_of(target.trim_id.as_str()));
    push_str(text, "\" bytes=\"");
    push_u64(text, target.original_visible_size);
    push_str(text, "\" head=\"");
    push_escaped(text, &head);
    text.push('"');
    assert(text@ =~= old(text)@ + trim_target_line(i as nat, *target));
}

/// The trim targets overlay: the guidance, then at most eight targets with
/// their id, size and head; `None` when there are no targets.
pub fn format_spine_trim_targets_prompt_overlay(targets: &Vec<SpineCurrentTrimTarget>) -> (r: Option<String>)
    ensures
        targets.len() == 0 ==> r is None,
        targets.len() > 0 ==> (r matches Some(t) && t@ == SPINE_TRIM_TAIL_GUIDANCE@
            + "\n<current_trim_targets>"@ + trim_target_lines(
            targets@,
            if targets.len() < 8 {
                targets.len() as nat
            } else {
                8
            },
        ) + "\n</current_trim_targets>"@),
{
    if targets.len() == 0 {
        return None;
    }
    let n: usize = if targets.len() < SPINE_TRIM_TARGET_LIMIT {
        targets.len()
    } else {
        SPINE_TRIM_TARGET_LIMIT
    };
    let mut text: Vec<char> = Vec::new();
    push_str(&mut text, SPINE_TRIM_TAIL_GUIDANCE);
    push_str(&mut text, "\n<current_trim_targets>");
    let ghost start = text@;
    let mut i: usize = 0;
    while i < n
        invariant
            n <= targets.len(),
            i <= n,
            text@ == start + trim_target_lines(targets@, i as nat),
        decreases n - i,
    {
        let ghost before = text@;
        push_trim_target_line(&mut text, i, &targets[i]);
        assert(text@ =~= start + trim_target_lines(targets@, (i + 1) as nat));
        i = i + 1;
    }
    push_str(&mut text, "\n</current_trim_targets>");
    Some(string_of(&text))
}


// ----------------------------------------------------------------------------
// Signals
// ----------------------------------------------------------------------------
/// The provider input tokens of the last response, when positive.
pub open spec fn positive_tokens(t: Option<i64>) -> Option<i64> {
    match t {
        Some(n) => if n > 0 {
            Some(n)
        } else {
            None
        },
        None => None,
    }
}

/// The status line's signal: the cursor, its summary, its parent and the
/// parent's summary from the snapshot, and the context the cursor node added
/// since it opened (unknown when it has a problem).
pub open spec fn status_signal_spec(
    snapshot: SpineTreeSnapshot,
    open_nodes: Seq<OpenNodeContextProjection>,
    last_input_tokens: Option<i64>,
    context_left_tokens: Option<i64>,
) -> SpineStatusPromptSignal {
    let active = snapshot_node(snapshot.nodes@, snapshot.active_node_id@);
    let parent = match active {
        Some(n) => n.parent_id,
        None => None,
    };
    SpineStatusPromptSignal {
        cursor: snapshot.active_node_id,
        node_summary: match active {
            Some(n) => n.summary,
            None => None,
        },
        parent: parent,
        parent_summary: match parent {
            Some(p) => match snapshot_node(snapshot.nodes@, p@) {
                Some(n) => n.summary,
                None => None,
            },
            None => None,
        },
        cursor_node_context_tokens: match open_node_for(open_nodes, snapshot.active_node_id@) {
            Some(n) => if n.problem is Some {
                None
            } else {
                context_state_spec(n.problem, n.provider_input_tokens, positive_tokens(last_input_tokens)).0
            },
            None => None,
        },
        context_left_tokens: context_left_tokens,
    }
}

/// The status line's signal for the cursor node of `snapshot`.
pub fn status_prompt_signal(
    snapshot: &SpineTreeSnapshot,
    open_nodes: &Vec<OpenNodeContextProjection>,
    last_input_tokens: Option<i64>,
    context_left_tokens: Option<i64>,
) -> (r: Result<SpineStatusPromptSignal, SpineError>)
    requires
        open_node_for(open_nodes@, snapshot.active_node_id@) matches Some(n) ==> context_delta_fits(
            n.provider_input_tokens,
            positive_tokens(last_input_tokens),
        ),
    ensures
        r == Ok::<SpineStatusPromptSignal, SpineError>(
            status_signal_spec(*snapshot, open_nodes@, last_input_tokens, context_left_tokens),
        ),
{
    let active_node = find_snapshot_node(&snapshot.nodes, snapshot.active_node_id.as_str());
    let parent = match active_node {
        Some(n) => copy_opt_string(&n.parent_id),
        None => None,
    };
    let parent_summary = match &parent {
        Some(p) => match find_snapshot_node(&snapshot.nodes, p.as_str()) {
            Some(n) => copy_opt_string(&n.summary),
            None => None,
        },
        None => None,
    };
    let node_summary = match active_node {
        Some(n) => copy_opt_string(&n.summary),
        None => None,
    };
    let cursor_node_context_tokens = match find_open_node(open_nodes, snapshot.active_node_id.as_str()) {
        Some(node) => if node.problem.is_some() {
            None
        } else {
            let current = match last_input_tokens {
                Some(t) => if t > 0 {
                    Some(t)
                } else {
                    None
                },
                None => None,
            };
            let (tokens, _) = node.context_state(current);
            tokens
        },
        None => None,
    };
    Ok(SpineStatusPromptSignal {
        cursor: snapshot.active_node_id.clone(),
        node_summary,
        parent,
        parent_summary,
        cursor_node_context_tokens,
        context_left_tokens,
    })
}

/// An open node as the pressure view shows it.
#[derive(Clone, Debug, PartialEq, Eq)]
pub struct SpinePressureOpenNode {
    pub node_id: NodeId,
    pub summary: Option<String>,
    pub current_node_context_tokens: Option<i64>,
}

/// The context window the pressure view reports.
#[derive(Clone, Copy, Debug, PartialEq, Eq)]
pub struct SpinePressureContextWindow {
    pub context_tokens: i64,
    pub model_context_window: Option<i64>,
}

/// What the pressure hints read of the tree: the cursor, its summary, the
/// open nodes and the reported context window.
#[derive(Clone, Debug, PartialEq, Eq)]
pub struct SpineTreePressureView {
    pub active_node_id: String,
    pub active_node_summary: Option<String>,
    pub open_nodes: Vec<SpinePressureOpenNode>,
    pub context_window: Option<SpinePressureContextWindow>,
}

/// The first pressure open node whose id reads `id`.
pub open spec fn pressure_node_for(nodes: Seq<SpinePressureOpenNode>, id: Seq<char>) -> Option<SpinePressureOpenNode>
    decreases nodes.len(),
{
    if nodes.len() == 0 {
        None
    } else if node_id_text(nodes[0].node_id@) == id {
        Some(nodes[0])
    } else {
        pressure_node_for(nodes.drop_first(), id)
    }
}

fn find_pressure_node<'a>(nodes: &'a Vec<SpinePressureOpenNode>, id: &str) -> (r: Option<&'a SpinePressureOpenNode>)
    ensures
        match pressure_node_for(nodes@, id@) {
            Some(n) => r matches Some(m) && *m == n,
            None => r is None,
        },
{
    let mut i: usize = 0;
    proof {
        assert(nodes@.skip(0) =~= nodes@);
    }
    while i < nodes.len()
        invariant
            i <= nodes.len(),
            pressure_node_for(nodes@, id@) == pressure_node_for(nodes@.skip(i as int), id@),
        decreases nodes.len() - i,
    {
        proof {
            assert(nodes@.skip(i as int).drop_first() =~= nodes@.skip(i + 1));
        }
        let text = nodes[i].node_id.to_string();
        if str_eq(text.as_str(), id) {
            return Some(&nodes[i]);
        }
        i = i + 1;
    }
    None
}

/// The pressure band as an `i64`.
pub open spec fn band_of(tokens: i64) -> Option<i64> {
    match pressure_band_spec(tokens as int) {
        Some(b) => Some(b as i64),
        None => None,
    }
}

/// The pressure signal: the boundary hint band of the cursor node (only when
/// closing is allowed and the cursor is not the root), the context size (the
/// view's, else the last usage when positive), the model's window (the view's,
/// else the usage's), and whether the context is at 80% of the window.
pub open spec fn pressure_signal_spec(
    view: SpineTreePressureView,
    tokens_in_context_window: i64,
    usage_model_context_window: Option<i64>,
    mode_allows_spine_close: bool,
) -> SpinePressurePromptSignal {
    let active = pressure_node_for(view.open_nodes@, view.active_node_id@);
    let allows_close = match active {
        Some(n) => match n.summary {
            Some(s) => trim_spec(s@) != "root"@,
            None => false,
        },
        None => false,
    };
    let cursor = match active {
        Some(n) => n.current_node_context_tokens,
        None => None,
    };
    let context_tokens = match view.context_window {
        Some(c) => Some(c.context_tokens),
        None => if tokens_in_context_window > 0 {
            Some(tokens_in_context_window)
        } else {
            None
        },
    };
    let window = match view.context_window {
        Some(c) => match c.model_context_window {
            Some(w) => Some(w),
            None => usage_model_context_window,
        },
        None => usage_model_context_window,
    };
    SpinePressurePromptSignal {
        node_id: view.active_node_id,
        node_summary: match view.active_node_summary {
            Some(s) => Some(s),
            None => match active {
                Some(n) => n.summary,
                None => None,
            },
        },
        cursor_node_context_tokens: cursor,
        boundary_hint_band: if mode_allows_spine_close && allows_close {
            match cursor {
                Some(t) => band_of(t),
                None => None,
            }
        } else {
            None
        },
        context_tokens: context_tokens,
        model_context_window: window,
        emit_context_warning_80: match (context_tokens, window) {
            (Some(t), Some(w)) => at_or_above_80_spec(t as int, w as int),
            _ => false,
        },
        mode_allows_spine_close: mode_allows_spine_close,
    }
}

/// The pressure signal of the cursor node, given the last usage's tokens in
/// the context window and its model window.
pub fn pressure_prompt_signal(
    inside_view: &SpineTreePressureView,
    tokens_in_context_window: i64,
    usage_model_context_window: Option<i64>,
    mode_allows_spine_close: bool,
) -> (r: SpinePressurePromptSignal)
    ensures
        r == pressure_signal_spec(*inside_view, tokens_in_context_window, usage_model_context_window, mode_allows_spine_close),
        (inside_view.context_window is Some && inside_view.context_window->0.model_context_window is Some)
            ==> r.model_context_window == inside_view.context_window->0.model_context_window,
        (inside_view.context_window is None || inside_view.context_window->0.model_context_window is None)
            ==> r.model_context_window == usage_model_context_window,
{
    let active_open_node = find_pressure_node(&inside_view.open_nodes, inside_view.active_node_id.as_str());
    let active_open_node_allows_close = match active_open_node {
        Some(node) => match &node.summary {
            Some(summary) => {
                let t = trim(&chars_of(summary.as_str()));
                proof {
                    reveal_strlit("root");
                }
                !eq_chars(&t, &chars_of("root"))
            },
            None => false,
        },
        None => false,
    };
    let cursor_node_context_tokens = match active_open_node {
        Some(node) => node.current_node_context_tokens,
        None => None,
    };
    let boundary_hint_band = if mode_allows_spine_close && active_open_node_allows_close {
        match cursor_node_context_tokens {
            Some(t) => pressure_band(t),
            None => None,
        }
    } else {
        None
    };
    let context_tokens = match &inside_view.context_window {
        Some(c) => Some(c.context_tokens),
        None => if tokens_in_context_window > 0 {
            Some(tokens_in_context_window)
        } else {
            None
        },
    };
    let model_context_window = match &inside_view.context_window {
        Some(c) => match c.model_context_window {
            Some(w) => Some(w),
            None => usage_model_context_window,
        },
        None => usage_model_context_window,
    };
    let emit_context_warning_80 = match (context_tokens, model_context_window) {
        (Some(t), Some(w)) => context_window_at_or_above_80(t, w),
        _ => false,
    };
    let node_summary = match &inside_view.active_node_summary {
        Some(s) => Some(s.clone()),
        None => match active_open_node {
            Some(node) => copy_opt_string(&node.summary),
            None => None,
        },
    };
    SpinePressurePromptSignal {
        node_id: inside_view.active_node_id.clone(),
        node_summary,
        cursor_node_context_tokens,
        boundary_hint_band,
        context_tokens,
        model_context_window,
        emit_context_warning_80,
        mode_allows_spine_close,
    }
}


/// The pressure signal reads the context window that the view reports: its
/// model window wins over the last usage's, which is used only when the view
/// reports none; the context size is the view's, else the last usage's when
/// positive. The 80% warning is raised exactly when both are known and the
/// context holds at least 80% of the window.
pub proof fn lemma_pressure_signal_prefers_reported_window(
    view: SpineTreePressureView,
    tokens_in_context_window: i64,
    usage_model_context_window: Option<i64>,
    mode_allows_spine_close: bool,
)
    ensures
        ({
            let r = pressure_signal_spec(view, tokens_in_context_window, usage_model_context_window, mode_allows_spine_close);
            let reported = view.context_window;
            let t = r.context_tokens->0;
            let w = r.model_context_window->0;
            &&& (reported is Some && reported->0.model_context_window is Some) ==> r.model_context_window
                == reported->0.model_context_window
            &&& (reported is Some && reported->0.model_context_window is None) ==> r.model_context_window
                == usage_model_context_window
            &&& reported is None ==> r.model_context_window == usage_model_context_window
            &&& reported is Some ==> r.context_tokens == Some(reported->0.context_tokens)
            &&& reported is None ==> r.context_tokens == (if tokens_in_context_window > 0 {
                Some(tokens_in_context_window)
            } else {
                None
            })
            &&& r.emit_context_warning_80 ==> r.context_tokens is Some && r.model_context_window is Some
            &&& (r.model_context_window is Some && w * 80 <= i64::MAX) ==> (r.emit_context_warning_80 <==> (
                r.context_tokens is Some && t > 0 && w > 0 && t * 100 >= w * 80))
        }),
{
    let r = pressure_signal_spec(view, tokens_in_context_window, usage_model_context_window, mode_allows_spine_close);
    if let (Some(t), Some(w)) = (r.context_tokens, r.model_context_window) {
        if t > 0 && w > 0 {
            assert(t * 100 > 0) by (nonlinear_arith)
                requires
                    t > 0,
            ;
            assert(w * 80 > 0) by (nonlinear_arith)
                requires
                    w > 0,
            ;
        }
    }
}

} // verus!
