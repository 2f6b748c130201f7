//! Part labels: dotted addresses such as `A.1.b` into a program's requirement
//! tree.
//!
//! ```text
//! Part   ::= Letter Suffix*
//! Suffix ::= "." ( Number | Letter )
//! Number ::= Digit+
//! ```
use crate::ident::ParseError;
use crate::text::{
    all_digits, decimal_text, decimal_value, digit_run, is_alpha_ascii, is_digit_ascii,
    lemma_decimal_text, lemma_decimal_value_push, lemma_digit_run, push_char, push_decimal,
    spec_is_alpha_ascii, spec_is_digit_ascii,
};
use vstd::prelude::*;

verus! {

/// One step of a part label.
#[derive(Debug, Clone, Copy, PartialEq, Eq, Structural)]
pub enum PartSymbol {
    /// A single ASCII letter.
    Char(char),
    /// A number, written in decimal.
    Num(i16),
}

/// A part label: a letter followed by any number of dotted letters and
/// numbers. The order of its symbols is fixed when it is read.
#[derive(Debug, PartialEq, Eq)]
pub struct PartLabel {
    symbols: Vec<PartSymbol>,
}

/// A symbol that the grammar can produce: a letter, or a number that is not
/// negative.
pub open spec fn symbol_wf(p: PartSymbol) -> bool {
    match p {
        PartSymbol::Char(c) => spec_is_alpha_ascii(c),
        PartSymbol::Num(n) => n >= 0,
    }
}

/// Every symbol of `s` is one that the grammar can produce.
pub open spec fn symbols_wf(s: Seq<PartSymbol>) -> bool {
    forall|i: int| 0 <= i < s.len() ==> symbol_wf(#[trigger] s[i])
}

/// A sequence of symbols that the grammar can produce: it starts with a
/// letter.
pub open spec fn label_wf(s: Seq<PartSymbol>) -> bool {
    &&& s.len() >= 1
    &&& s[0] is Char
    &&& symbols_wf(s)
}

/// `head` put in front of what the rest read as, if the rest read at all.
pub open spec fn prepend(head: PartSymbol, rest: Option<Seq<PartSymbol>>) -> Option<
    Seq<PartSymbol>,
> {
    match rest {
        Some(r) => Some(seq![head] + r),
        None => None,
    }
}

/// `front` put in front of what the rest read as, if the rest read at all.
pub open spec fn prepend_all(front: Seq<PartSymbol>, rest: Option<Seq<PartSymbol>>) -> Option<
    Seq<PartSymbol>,
> {
    match rest {
        Some(r) => Some(front + r),
        None => None,
    }
}

/// What a run of suffixes reads as. Each suffix is a dot followed by one
/// letter or by a number of at most `i16::MAX`; anything else, or anything
/// left over, makes the whole run unreadable.
pub open spec fn spec_parse_suffixes(s: Seq<char>) -> Option<Seq<PartSymbol>>
    decreases s.len(),
    via spec_parse_suffixes_decreases
{
    if s.len() == 0 {
        Some(Seq::empty())
    } else if s[0] != '.' || s.len() < 2 {
        None
    } else if spec_is_alpha_ascii(s[1]) {
        prepend(PartSymbol::Char(s[1]), spec_parse_suffixes(s.skip(2)))
    } else {
        let k = digit_run(s.skip(1)) as int;
        let v = decimal_value(s.subrange(1, 1 + k));
        if k == 0 || v > i16::MAX {
            None
        } else {
            prepend(PartSymbol::Num(v as i16), spec_parse_suffixes(s.skip(1 + k)))
        }
    }
}

#[via_fn]
proof fn spec_parse_suffixes_decreases(s: Seq<char>) {
    if s.len() >= 2 {
        lemma_digit_run_bound(s.skip(1));
    }
}

/// What a text reads as: the symbols of a part label, or nothing.
pub open spec fn spec_parse_part_label(s: Seq<char>) -> Option<Seq<PartSymbol>> {
    if s.len() == 0 || !spec_is_alpha_ascii(s[0]) {
        None
    } else {
        prepend(PartSymbol::Char(s[0]), spec_parse_suffixes(s.skip(1)))
    }
}

/// How one symbol is written.
pub open spec fn symbol_text(p: PartSymbol) -> Seq<char> {
    match p {
        PartSymbol::Char(c) => seq![c],
        PartSymbol::Num(n) => decimal_text(n as nat),
    }
}

/// How a run of suffixes is written: a dot before each symbol.
pub open spec fn suffix_text(s: Seq<PartSymbol>) -> Seq<char>
    decreases s.len(),
{
    if s.len() == 0 {
        Seq::empty()
    } else {
        suffix_text(s.drop_last()) + seq!['.'] + symbol_text(s.last())
    }
}

/// How a label is written: its symbols with dots between them.
pub open spec fn label_text(s: Seq<PartSymbol>) -> Seq<char> {
    if s.len() == 0 {
        Seq::empty()
    } else {
        symbol_text(s[0]) + suffix_text(s.skip(1))
    }
}

impl View for PartLabel {
    type V = Seq<PartSymbol>;

    closed spec fn view(&self) -> Seq<PartSymbol> {
        self.symbols@
    }
}

impl Clone for PartLabel {
    fn clone(&self) -> (r: PartLabel)
        ensures
            r@ == self@,
    {
        self.duplicate()
    }
}

impl PartLabel {
    #[verifier::type_invariant]
    spec fn inv(&self) -> bool {
        label_wf(self.symbols@)
    }

    /// How many symbols the label has.
    pub fn len(&self) -> (r: usize)
        ensures
            r == self@.len(),
            label_wf(self@),
    {
        proof {
            use_type_invariant(self);
        }
        self.symbols.len()
    }

    /// The symbol at position `i`.
    pub fn symbol(&self, i: usize) -> (r: PartSymbol)
        requires
            i < self@.len(),
        ensures
            r == self@[i as int],
            symbol_wf(r),
    {
        proof {
            use_type_invariant(self);
        }
        self.symbols[i]
    }

    /// The symbols of the label, in order.
    pub fn symbols(&self) -> (r: Vec<PartSymbol>)
        ensures
            r@ == self@,
            label_wf(r@),
    {
        proof {
            use_type_invariant(self);
        }
        let mut out: Vec<PartSymbol> = Vec::new();
        let mut i: usize = 0;
        while i < self.symbols.len()
            invariant
                i <= self.symbols.len(),
                out@ == self.symbols@.subrange(0, i as int),
            decreases self.symbols.len() - i,
        {
            out.push(self.symbols[i]);
            assert(self.symbols@.subrange(0, i + 1) =~= self.symbols@.subrange(0, i as int).push(
                self.symbols@[i as int],
            ));
            i = i + 1;
        }
        assert(self.symbols@.subrange(0, i as int) =~= self.symbols@);
        out
    }

    /// Whether both labels have the same symbols in the same order.
    pub fn same_as(&self, other: &PartLabel) -> (r: bool)
        ensures
            r == (self@ == other@),
    {
        let n: usize = self.symbols.len();
        if other.symbols.len() != n {
            return false;
        }
        let mut i: usize = 0;
        while i < n
            invariant
                n == self.symbols@.len(),
                n == other.symbols@.len(),
                i <= n,
                forall|j: int| 0 <= j < i ==> self.symbols@[j] == other.symbols@[j],
            decreases n - i,
        {
            if self.symbols[i] != other.symbols[i] {
                return false;
            }
            i = i + 1;
        }
        assert(self.symbols@ =~= other.symbols@);
        true
    }

    /// A copy of the label.
    pub fn duplicate(&self) -> (r: PartLabel)
        ensures
            r@ == self@,
    {
        proof {
            use_type_invariant(self);
        }
        PartLabel { symbols: self.symbols() }
    }

    /// The label in its canonical writing: the symbols with dots between them,
    /// each number as its shortest decimal numeral.
    pub fn to_string(&self) -> (r: String)
        ensures
            r@ == label_text(self@),
    {
        proof {
            use_type_invariant(self);
        }
        let mut out = String::new();
        let n: usize = self.symbols.len();
        let mut i: usize = 0;
        while i < n
            invariant
                n == self.symbols@.len(),
                i <= n,
                label_wf(self.symbols@),
                i == 0 ==> out@ == Seq::<char>::empty(),
                i > 0 ==> out@ == symbol_text(self.symbols@[0]) + suffix_text(
                    self.symbols@.subrange(1, i as int),
                ),
            decreases n - i,
        {
            let ghost before = out@;
            if i > 0 {
                push_char(&mut out, '.');
            }
            match self.symbols[i] {
                PartSymbol::Char(c) => {
                    push_char(&mut out, c);
                },
                PartSymbol::Num(v) => {
                    assert(symbol_wf(self.symbols@[i as int]));
                    push_decimal(&mut out, v as u16);
                },
            }
            proof {
                let sym = self.symbols@[i as int];
                if i == 0 {
                    assert(self.symbols@.subrange(1, 1) =~= Seq::<PartSymbol>::empty());
                    assert(sym is Char);
                    assert(out@ =~= symbol_text(sym) + suffix_text(self.symbols@.subrange(1, 1)));
                } else {
                    let upto = self.symbols@.subrange(1, i + 1);
                    assert(upto.drop_last() =~= self.symbols@.subrange(1, i as int));
                    assert(upto.last() == sym);
                    assert(out@ =~= before + seq!['.'] + symbol_text(sym));
                    assert(out@ =~= symbol_text(self.symbols@[0]) + suffix_text(upto));
                }
            }
            i = i + 1;
        }
        assert(self.symbols@.subrange(1, n as int) =~= self.symbols@.skip(1));
        out
    }
}

/// Reads a part label. The whole input must be a label: an ASCII letter, then
/// any number of suffixes, each a dot followed by one ASCII letter or by a
/// decimal number of at most `i16::MAX`.
pub fn parse_part_label(input: &str) -> (r: Result<PartLabel, ParseError>)
    ensures
        match r {
            Ok(label) => spec_parse_part_label(input@) == Some(label@),
            Err(e) => spec_parse_part_label(input@) is None && e == ParseError::MalformedPartLabel,
        },
{
    let n: usize = input.unicode_len();
    if n == 0 {
        return Err(ParseError::MalformedPartLabel);
    }
    let first = input.get_char(0);
    if !is_alpha_ascii(first) {
        return Err(ParseError::MalformedPartLabel);
    }
    let mut symbols: Vec<PartSymbol> = Vec::new();
    symbols.push(PartSymbol::Char(first));
    let mut pos: usize = 1;
    proof {
        match spec_parse_suffixes(input@.skip(1)) {
            Some(r) => {
                assert(symbols@ + r =~= seq![PartSymbol::Char(first)] + r);
            },
            None => {},
        }
    }
    while pos < n
        invariant
            n == input@.len(),
            1 <= pos <= n,
            label_wf(symbols@),
            spec_parse_part_label(input@) == prepend_all(
                symbols@,
                spec_parse_suffixes(input@.skip(pos as int)),
            ),
        decreases n - pos,
    {
        let ghost rest = input@.skip(pos as int);
        let ghost before = symbols@;
        assert(rest[0] == input@[pos as int]);
        if input.get_char(pos) != '.' || pos + 1 >= n {
            return Err(ParseError::MalformedPartLabel);
        }
        let c = input.get_char(pos + 1);
        assert(rest[1] == c);
        if is_alpha_ascii(c) {
            symbols.push(PartSymbol::Char(c));
            proof {
                assert(rest.skip(2) =~= input@.skip(pos + 2));
                lemma_prepend_all_push(
                    before,
                    PartSymbol::Char(c),
                    spec_parse_suffixes(input@.skip(pos + 2)),
                );
            }
            pos = pos + 2;
        } else {
            let start: usize = pos + 1;
            let mut i: usize = start;
            let mut value: u32 = 0;
            let mut overflow: bool = false;
            assert(input@.subrange(start as int, start as int) =~= Seq::<char>::empty());
            while i < n && is_digit_ascii(input.get_char(i))
                invariant
                    n == input@.len(),
                    start <= i <= n,
                    all_digits(input@.subrange(start as int, i as int)),
                    !overflow ==> value == decimal_value(input@.subrange(start as int, i as int))
                        && value <= 32767,
                    overflow ==> decimal_value(input@.subrange(start as int, i as int)) > 32767,
                decreases n - i,
            {
                let ch = input.get_char(i);
                let d: u32 = (ch as u32) - 48;
                proof {
                    let run = input@.subrange(start as int, i as int);
                    lemma_decimal_value_push(run, ch);
                    assert(input@.subrange(start as int, i + 1) =~= run.push(ch));
                }
                if !overflow {
                    value = value * 10 + d;
                    if value > 32767 {
                        overflow = true;
                    }
                }
                i = i + 1;
            }
            proof {
                let tail = rest.skip(1);
                assert(tail =~= input@.skip(start as int));
                assert(tail.subrange(0, i - start) =~= input@.subrange(start as int, i as int));
                if i < n {
                    assert(tail[i - start] == input@[i as int]);
                }
                lemma_digit_run(tail, i - start);
                assert(rest.subrange(1, 1 + (i - start)) =~= input@.subrange(
                    start as int,
                    i as int,
                ));
                assert(rest.skip(1 + (i - start)) =~= input@.skip(i as int));
            }
            if i == start || overflow {
                return Err(ParseError::MalformedPartLabel);
            }
            symbols.push(PartSymbol::Num(value as i16));
            proof {
                lemma_prepend_all_push(
                    before,
                    PartSymbol::Num(value as i16),
                    spec_parse_suffixes(input@.skip(i as int)),
                );
            }
            pos = i;
        }
    }
    proof {
        assert(input@.skip(n as int) =~= Seq::<char>::empty());
        assert(symbols@ + Seq::<PartSymbol>::empty() =~= symbols@);
    }
    Ok(PartLabel { symbols })
}

/// A text starts with no more digits than it has characters.
pub proof fn lemma_digit_run_bound(s: Seq<char>)
    ensures
        digit_run(s) <= s.len(),
    decreases s.len(),
{
    if s.len() > 0 && spec_is_digit_ascii(s[0]) {
        lemma_digit_run_bound(s.skip(1));
    }
}

/// Adding a symbol at the end of the front is the same as putting it in front
/// of the rest.
pub proof fn lemma_prepend_all_push(
    front: Seq<PartSymbol>,
    p: PartSymbol,
    rest: Option<Seq<PartSymbol>>,
)
    ensures
        prepend_all(front.push(p), rest) == prepend_all(front, prepend(p, rest)),
{
    match rest {
        Some(r) => {
            assert(front.push(p) + r =~= front + (seq![p] + r));
        },
        None => {},
    }
}

/// A run of suffixes that starts with the symbol `p` is written as a dot, the
/// symbol, and then the rest of the run.
pub proof fn lemma_suffix_text_front(p: PartSymbol, rest: Seq<PartSymbol>)
    ensures
        suffix_text(seq![p] + rest) == seq!['.'] + symbol_text(p) + suffix_text(rest),
    decreases rest.len(),
{
    let whole = seq![p] + rest;
    if rest.len() == 0 {
        assert(whole.drop_last() =~= Seq::<PartSymbol>::empty());
        assert(whole.last() == p);
        assert(suffix_text(whole.drop_last()) =~= Seq::<char>::empty());
        assert(suffix_text(whole) =~= seq!['.'] + symbol_text(p) + suffix_text(rest));
    } else {
        assert(whole.drop_last() =~= seq![p] + rest.drop_last());
        assert(whole.last() == rest.last());
        lemma_suffix_text_front(p, rest.drop_last());
        assert(suffix_text(whole) =~= seq!['.'] + symbol_text(p) + suffix_text(rest));
    }
}

/// A written run of suffixes is empty or starts with a dot.
pub proof fn lemma_suffix_text_starts_with_dot(s: Seq<PartSymbol>)
    ensures
        s.len() == 0 ==> suffix_text(s).len() == 0,
        s.len() > 0 ==> suffix_text(s).len() >= 2 && suffix_text(s)[0] == '.',
    decreases s.len(),
{
    if s.len() > 0 {
        lemma_suffix_text_starts_with_dot(s.drop_last());
        match s.last() {
            PartSymbol::Char(c) => {},
            PartSymbol::Num(n) => {
                lemma_decimal_text(n as nat);
            },
        }
    }
}

/// Whatever a run of suffixes reads as is made of symbols that the grammar
/// can produce.
pub proof fn lemma_parse_suffixes_wf(s: Seq<char>)
    ensures
        spec_parse_suffixes(s) is Some ==> symbols_wf(spec_parse_suffixes(s)->Some_0),
    decreases s.len(),
{
    if s.len() == 0 {
    } else if s[0] != '.' || s.len() < 2 {
    } else if spec_is_alpha_ascii(s[1]) {
        lemma_parse_suffixes_wf(s.skip(2));
    } else {
        let k = digit_run(s.skip(1)) as int;
        lemma_digit_run_bound(s.skip(1));
        if k > 0 {
            lemma_parse_suffixes_wf(s.skip(1 + k));
        }
    }
}

/// A run of symbols that the grammar can produce, written out as suffixes,
/// reads back as the same run.
pub proof fn lemma_suffixes_read_back(syms: Seq<PartSymbol>)
    requires
        symbols_wf(syms),
    ensures
        spec_parse_suffixes(suffix_text(syms)) == Some(syms),
    decreases syms.len(),
{
    if syms.len() == 0 {
        assert(syms =~= Seq::<PartSymbol>::empty());
    } else {
        let p = syms[0];
        let rest = syms.skip(1);
        assert(syms =~= seq![p] + rest);
        assert(symbols_wf(rest)) by {
            assert forall|i: int| 0 <= i < rest.len() implies symbol_wf(#[trigger] rest[i]) by {
                assert(rest[i] == syms[i + 1]);
            }
        }
        assert(symbol_wf(p));
        lemma_suffix_text_front(p, rest);
        lemma_suffixes_read_back(rest);
        lemma_suffix_text_starts_with_dot(rest);
        let tail = suffix_text(rest);
        let s = seq!['.'] + symbol_text(p) + tail;
        assert(suffix_text(syms) == s);
        match p {
            PartSymbol::Char(c) => {
                assert(s[0] == '.');
                assert(s[1] == c);
                assert(s.skip(2) =~= tail);
            },
            PartSymbol::Num(n) => {
                let d = decimal_text(n as nat);
                lemma_decimal_text(n as nat);
                let k = d.len() as int;
                assert(s[0] == '.');
                assert(s[1] == d[0]);
                assert(spec_is_digit_ascii(d[0]));
                let after = s.skip(1);
                assert(after =~= d + tail);
                assert(after.subrange(0, k) =~= d);
                if k < after.len() {
                    assert(after[k] == tail[0]);
                }
                lemma_digit_run(after, k);
                assert(s.subrange(1, 1 + k) =~= d);
                assert(s.skip(1 + k) =~= tail);
            },
        }
    }
}

/// What a text reads as is always a label that the grammar can produce.
pub proof fn lemma_parse_part_label_wf(s: Seq<char>)
    ensures
        spec_parse_part_label(s) is Some ==> label_wf(spec_parse_part_label(s)->Some_0),
{
    if spec_parse_part_label(s) is Some {
        lemma_parse_suffixes_wf(s.skip(1));
    }
}

/// A label that the grammar can produce, written out in canonical form, reads
/// back as the same label.
pub proof fn lemma_label_reads_back(syms: Seq<PartSymbol>)
    requires
        label_wf(syms),
    ensures
        spec_parse_part_label(label_text(syms)) == Some(syms),
{
    let rest = syms.skip(1);
    assert(symbols_wf(rest)) by {
        assert forall|i: int| 0 <= i < rest.len() implies symbol_wf(#[trigger] rest[i]) by {
            assert(rest[i] == syms[i + 1]);
        }
    }
    assert(symbol_wf(syms[0]));
    lemma_suffixes_read_back(rest);
    let s = label_text(syms);
    assert(s.skip(1) =~= suffix_text(rest));
    assert(seq![syms[0]] + rest =~= syms);
}

/// Reading a text that is a part label, writing the label out in canonical
/// form and reading that again gives the same label: reading after writing
/// changes nothing.
pub proof fn law_part_label_round_trip(s: Seq<char>)
    requires
        spec_parse_part_label(s) is Some,
    ensures
        spec_parse_part_label(label_text(spec_parse_part_label(s)->Some_0))
            == spec_parse_part_label(s),
{
    lemma_parse_part_label_wf(s);
    lemma_label_reads_back(spec_parse_part_label(s)->Some_0);
}

} // verus!
