use vstd::prelude::*;
use crate::hex::{
    hex_text, hex_value, lemma_hex_round_trip, lemma_hex_text_len, lemma_hex_value_unique,
    lemma_pow16_of_32, push_hex, read_hex,
};
use crate::keyed::{
    lemma_position_found, lemma_value_of_with_entry, position_of, value_of, with_entry,
};
use crate::text::chars_of;

verus! {

/// The name of the header entry that carries a trace context.
pub const TRACEPARENT: &'static str = "traceparent";

/// The triple that links spans across process boundaries.
#[derive(Clone, Copy, Debug, PartialEq, Eq, Structural)]
pub struct SpanContext {
    pub trace_id: u128,
    pub span_id: u64,
    pub trace_flags: u8,
}

impl SpanContext {
    /// A context identifies a span only when neither identifier is zero.
    pub open spec fn valid(self) -> bool {
        self.trace_id != 0 && self.span_id != 0
    }

    /// Whether the context identifies a span.
    pub fn is_valid(&self) -> (r: bool)
        ensures
            r == self.valid(),
    {
        self.trace_id != 0 && self.span_id != 0
    }
}

/// One entry of a carrier: a header name and its text.
#[derive(Clone, Debug)]
pub struct HeaderField {
    pub name: String,
    pub value: String,
}

/// A string-keyed header map, kept in the order in which the entries came.
/// The first entry under a name is the one that counts.
#[derive(Clone, Debug)]
pub struct Carrier {
    pub fields: Vec<HeaderField>,
}

impl View for Carrier {
    type V = Seq<(Seq<char>, Seq<char>)>;

    open spec fn view(&self) -> Self::V {
        Seq::new(self.fields@.len(), |i: int| (self.fields@[i].name@, self.fields@[i].value@))
    }
}

impl Carrier {
    /// A carrier without entries.
    pub fn new() -> (carrier: Carrier)
        ensures
            carrier@ == Seq::<(Seq<char>, Seq<char>)>::empty(),
    {
        let carrier = Carrier { fields: Vec::new() };
        assert(carrier@ =~= Seq::<(Seq<char>, Seq<char>)>::empty());
        carrier
    }

    /// The position of the first entry under `name`, or the number of entries.
    fn find(&self, name: &str) -> (at: usize)
        ensures
            at == position_of(self@, name@),
            at <= self.fields@.len(),
    {
        let key: String = name.to_owned();
        let mut i: usize = 0;
        while i < self.fields.len()
            invariant
                i <= self.fields@.len(),
                key@ == name@,
                forall|j: int| 0 <= j < i ==> (#[trigger] self@[j]).0 != name@,
            decreases self.fields@.len() - i,
        {
            if self.fields[i].name == key {
                proof {
                    lemma_position_found(self@, name@, i as int);
                }
                return i;
            }
            i += 1;
        }
        proof {
            lemma_position_found(self@, name@, i as int);
        }
        i
    }

    /// The text held under `name`, if any.
    pub fn get(&self, name: &str) -> (text: Option<&String>)
        ensures
            match text {
                Some(t) => value_of(self@, name@) == Some(t@),
                None => value_of(self@, name@) is None,
            },
    {
        let at = self.find(name);
        if at < self.fields.len() {
            Some(&self.fields[at].value)
        } else {
            None
        }
    }

    /// Writes `value` under `name`, in place of what was held there.
    pub fn set(&mut self, name: &str, value: String)
        ensures
            final(self)@ == with_entry(old(self)@, name@, value@),
    {
        let at = self.find(name);
        let field = HeaderField { name: name.to_owned(), value };
        if at < self.fields.len() {
            self.fields.set(at, field);
        } else {
            self.fields.push(field);
        }
        assert(self@ =~= with_entry(old(self)@, name@, value@));
    }
}

/// The header text that carries `context`: the version `00`, the trace
/// identifier in 32 digits, the span identifier in 16 and the flags in 2,
/// joined by hyphens.
pub open spec fn traceparent_text(context: SpanContext) -> Seq<char> {
    seq!['0', '0', '-'] + hex_text(context.trace_id as nat, 32) + seq!['-'] + hex_text(
        context.span_id as nat,
        16,
    ) + seq!['-'] + hex_text(context.trace_flags as nat, 2)
}

/// The context that the header text `s` carries. A text of any other shape
/// than the one written by `traceparent_text`, or with an identifier that is
/// zero, carries none.
pub open spec fn parse_traceparent(s: Seq<char>) -> Option<SpanContext> {
    if s.len() == 55 && s[0] == '0' && s[1] == '0' && s[2] == '-' && s[35] == '-' && s[52]
        == '-' {
        match (
            hex_value(s.subrange(3, 35)),
            hex_value(s.subrange(36, 52)),
            hex_value(s.subrange(53, 55)),
        ) {
            (Some(trace_id), Some(span_id), Some(flags)) => {
                if trace_id != 0 && span_id != 0 {
                    Some(
                        SpanContext {
                            trace_id: trace_id as u128,
                            span_id: span_id as u64,
                            trace_flags: flags as u8,
                        },
                    )
                } else {
                    None
                }
            },
            _ => None,
        }
    } else {
        None
    }
}

/// The carrier entries after `context` was injected: an invalid context
/// leaves them as they are.
pub open spec fn injected(
    fields: Seq<(Seq<char>, Seq<char>)>,
    context: SpanContext,
) -> Seq<(Seq<char>, Seq<char>)> {
    if context.valid() {
        with_entry(fields, TRACEPARENT@, traceparent_text(context))
    } else {
        fields
    }
}

/// The context that the carrier entries hold, if any.
pub open spec fn extracted(fields: Seq<(Seq<char>, Seq<char>)>) -> Option<SpanContext> {
    match value_of(fields, TRACEPARENT@) {
        Some(text) => parse_traceparent(text),
        None => None,
    }
}

/// The pieces of a header text of the right shape are the three numbers
/// written in it.
proof fn lemma_traceparent_pieces(context: SpanContext)
    ensures
        traceparent_text(context).len() == 55,
        traceparent_text(context)[0] == '0',
        traceparent_text(context)[1] == '0',
        traceparent_text(context)[2] == '-',
        traceparent_text(context)[35] == '-',
        traceparent_text(context)[52] == '-',
        traceparent_text(context).subrange(3, 35) == hex_text(context.trace_id as nat, 32),
        traceparent_text(context).subrange(36, 52) == hex_text(context.span_id as nat, 16),
        traceparent_text(context).subrange(53, 55) == hex_text(context.trace_flags as nat, 2),
{
    let text = traceparent_text(context);
    lemma_hex_text_len(context.trace_id as nat, 32);
    lemma_hex_text_len(context.span_id as nat, 16);
    lemma_hex_text_len(context.trace_flags as nat, 2);
    assert(text.subrange(3, 35) =~= hex_text(context.trace_id as nat, 32));
    assert(text.subrange(36, 52) =~= hex_text(context.span_id as nat, 16));
    assert(text.subrange(53, 55) =~= hex_text(context.trace_flags as nat, 2));
}

/// Reading the header text written for a valid context gives that context:
/// the same trace identifier, span identifier and flags.
pub proof fn lemma_parse_of_traceparent_text(context: SpanContext)
    requires
        context.valid(),
    ensures
        parse_traceparent(traceparent_text(context)) == Some(context),
{
    lemma_traceparent_pieces(context);
    lemma_pow16_of_32();
    lemma_hex_round_trip(context.trace_id as nat, 32);
    lemma_hex_round_trip(context.span_id as nat, 16);
    lemma_hex_round_trip(context.trace_flags as nat, 2);
}

/// Only a text that was written for a valid context is read as one: what is
/// read from `s` writes `s` again.
pub proof fn lemma_traceparent_text_of_parse(s: Seq<char>)
    requires
        parse_traceparent(s) is Some,
    ensures
        parse_traceparent(s)->0.valid(),
        traceparent_text(parse_traceparent(s)->0) == s,
{
    let context = parse_traceparent(s)->0;
    lemma_pow16_of_32();
    lemma_hex_value_unique(s.subrange(3, 35));
    lemma_hex_value_unique(s.subrange(36, 52));
    lemma_hex_value_unique(s.subrange(53, 55));
    lemma_traceparent_pieces(context);
    let text = traceparent_text(context);
    assert forall|i: int| 0 <= i < 55 implies text[i] == s[i] by {
        if 3 <= i < 35 {
            assert(text[i] == text.subrange(3, 35)[i - 3]);
            assert(s[i] == s.subrange(3, 35)[i - 3]);
        } else if 36 <= i < 52 {
            assert(text[i] == text.subrange(36, 52)[i - 36]);
            assert(s[i] == s.subrange(36, 52)[i - 36]);
        } else if 53 <= i {
            assert(text[i] == text.subrange(53, 55)[i - 53]);
            assert(s[i] == s.subrange(53, 55)[i - 53]);
        }
    }
    assert(text =~= s);
}

/// Extraction after injection gives the injected context back, whatever the
/// carrier held before: the same trace identifier, span identifier and
/// flags.
pub proof fn lemma_extract_after_inject(
    fields: Seq<(Seq<char>, Seq<char>)>,
    context: SpanContext,
)
    requires
        context.valid(),
    ensures
        extracted(injected(fields, context)) == Some(context),
{
    lemma_value_of_with_entry(fields, TRACEPARENT@, traceparent_text(context), TRACEPARENT@);
    lemma_parse_of_traceparent_text(context);
}

/// Injecting a context changes no entry under another name.
pub proof fn lemma_inject_keeps_other_entries(
    fields: Seq<(Seq<char>, Seq<char>)>,
    context: SpanContext,
    name: Seq<char>,
)
    requires
        name != TRACEPARENT@,
    ensures
        value_of(injected(fields, context), name) == value_of(fields, name),
{
    lemma_value_of_with_entry(fields, TRACEPARENT@, traceparent_text(context), name);
}

/// The header text that carries `context`.
pub fn traceparent_value(context: &SpanContext) -> (text: String)
    ensures
        text@ == traceparent_text(*context),
{
    let mut text = String::new();
    text.push('0');
    text.push('0');
    text.push('-');
    push_hex(&mut text, context.trace_id, 32);
    text.push('-');
    push_hex(&mut text, context.span_id as u128, 16);
    text.push('-');
    push_hex(&mut text, context.trace_flags as u128, 2);
    assert(text@ =~= traceparent_text(*context));
    text
}

/// The context that the header text carries; `None` for a malformed text.
pub fn parse_traceparent_value(text: &str) -> (context: Option<SpanContext>)
    ensures
        context == parse_traceparent(text@),
{
    let chars = chars_of(text);
    if chars.len() != 55 {
        return None;
    }
    if chars[0] != '0' || chars[1] != '0' || chars[2] != '-' || chars[35] != '-' || chars[52]
        != '-' {
        return None;
    }
    let trace_id = read_hex(&chars, 3, 35);
    let span_id = read_hex(&chars, 36, 52);
    let flags = read_hex(&chars, 53, 55);
    match (trace_id, span_id, flags) {
        (Some(trace_id), Some(span_id), Some(flags)) => {
            proof {
                lemma_pow16_of_32();
                lemma_hex_value_unique(chars@.subrange(36, 52));
                lemma_hex_value_unique(chars@.subrange(53, 55));
            }
            if trace_id != 0 && span_id != 0 {
                Some(
                    SpanContext {
                        trace_id,
                        span_id: span_id as u64,
                        trace_flags: flags as u8,
                    },
                )
            } else {
                None
            }
        },
        _ => None,
    }
}

/// Writes the header entry that carries `context` into `carrier`. A context
/// that is not valid identifies no span, and nothing is written for it.
pub fn inject(context: &SpanContext, carrier: &mut Carrier)
    ensures
        final(carrier)@ == injected(old(carrier)@, *context),
{
    if context.is_valid() {
        carrier.set(TRACEPARENT, traceparent_value(context));
    }
}

/// The context that `carrier` holds; `None` when the header entry is absent
/// or malformed.
pub fn extract(carrier: &Carrier) -> (context: Option<SpanContext>)
    ensures
        context == extracted(carrier@),
{
    match carrier.get(TRACEPARENT) {
        Some(text) => parse_traceparent_value(text.as_str()),
        None => None,
    }
}

} // verus!
