//! The data model of the language: values wrapped in expressions, chains of
//! links, note timelines, and the names chains go by.

use crate::scalar::{f64_le, f64_lt, f64_sub, le_bits, lt_bits, sub_bits};
use crate::value::Variable;
use vstd::prelude::*;

verus! {

/// A half-open interval `[start, end)` in absolute seconds, both bounds
/// binary64 bit patterns.
#[derive(Clone, Copy)]
pub struct Period {
    pub start: u64,
    pub end: u64,
}

/// The period contains a time when `start <= time < end` under IEEE-754
/// ordering.
pub open spec fn spec_contains(p: Period, time: u64) -> bool {
    f64_le(p.start, time) && f64_lt(time, p.end)
}

/// The length of a period: `end - start`.
pub open spec fn spec_duration(p: Period) -> u64 {
    f64_sub(p.end, p.start)
}

impl Period {
    /// Does a time fall within the period?
    pub fn contains(&self, time: u64) -> (r: bool)
        ensures
            r == spec_contains(*self, time),
    {
        le_bits(self.start, time) && lt_bits(time, self.end)
    }

    pub fn duration(&self) -> (r: u64)
        ensures
            r == spec_duration(*self),
    {
        sub_bits(self.end, self.start)
    }
}

/// One or more simultaneous pitches sounding over a period.
#[derive(Clone)]
pub struct Note {
    pub pitches: Vec<u64>,
    pub period: Period,
}


/// A name a chain can go by: a `::`-joined scoped path, or a serial number
/// for an anonymous chain.
pub enum ChainName {
    Scoped(String),
    Anonymous(usize),
}

/// The mathematical shape of a `ChainName`.
#[verifier::ext_equal]
pub enum NameV {
    Scoped(Seq<char>),
    Anonymous(nat),
}

impl View for ChainName {
    type V = NameV;

    open spec fn view(&self) -> NameV {
        match self {
            ChainName::Scoped(s) => NameV::Scoped(s@),
            ChainName::Anonymous(i) => NameV::Anonymous(*i as nat),
        }
    }
}

pub open spec fn spec_digit(d: nat) -> char {
    if d == 0 {
        '0'
    } else if d == 1 {
        '1'
    } else if d == 2 {
        '2'
    } else if d == 3 {
        '3'
    } else if d == 4 {
        '4'
    } else if d == 5 {
        '5'
    } else if d == 6 {
        '6'
    } else if d == 7 {
        '7'
    } else if d == 8 {
        '8'
    } else {
        '9'
    }
}

/// The decimal digits of `n`, most significant first.
pub open spec fn spec_digits(n: nat) -> Seq<char>
    decreases n,
{
    if n < 10 {
        seq![spec_digit(n)]
    } else {
        spec_digits(n / 10) + seq![spec_digit(n % 10)]
    }
}

/// The file-name form of an anonymous chain: `anon` followed by the serial
/// number in decimal, zero-padded to at least four digits.
pub open spec fn spec_anon_name(n: nat) -> Seq<char> {
    "anon"@ + (if n < 10 {
        "000"@
    } else if n < 100 {
        "00"@
    } else if n < 1000 {
        "0"@
    } else {
        Seq::empty()
    }) + spec_digits(n)
}

/// The text form of a chain name: the scoped path itself, or the anonymous
/// chain's padded serial number.
pub open spec fn spec_name_text(n: NameV) -> Seq<char> {
    match n {
        NameV::Scoped(s) => s,
        NameV::Anonymous(i) => spec_anon_name(i),
    }
}

fn push_digit(out: &mut String, d: usize)
    requires
        d < 10,
    ensures
        final(out)@ == old(out)@ + seq![spec_digit(d as nat)],
{
    if d == 0 {
        out.append("0");
        proof {
            reveal_strlit("0");
            assert("0"@ =~= seq![spec_digit(d as nat)]);
        }
    } else if d == 1 {
        out.append("1");
        proof {
            reveal_strlit("1");
            assert("1"@ =~= seq![spec_digit(d as nat)]);
        }
    } else if d == 2 {
        out.append("2");
        proof {
            reveal_strlit("2");
            assert("2"@ =~= seq![spec_digit(d as nat)]);
        }
    } else if d == 3 {
        out.append("3");
        proof {
            reveal_strlit("3");
            assert("3"@ =~= seq![spec_digit(d as nat)]);
        }
    } else if d == 4 {
        out.append("4");
        proof {
            reveal_strlit("4");
            assert("4"@ =~= seq![spec_digit(d as nat)]);
        }
    } else if d == 5 {
        out.append("5");
        proof {
            reveal_strlit("5");
            assert("5"@ =~= seq![spec_digit(d as nat)]);
        }
    } else if d == 6 {
        out.append("6");
        proof {
            reveal_strlit("6");
            assert("6"@ =~= seq![spec_digit(d as nat)]);
        }
    } else if d == 7 {
        out.append("7");
        proof {
            reveal_strlit("7");
            assert("7"@ =~= seq![spec_digit(d as nat)]);
        }
    } else if d == 8 {
        out.append("8");
        proof {
            reveal_strlit("8");
            assert("8"@ =~= seq![spec_digit(d as nat)]);
        }
    } else {
        out.append("9");
        proof {
            reveal_strlit("9");
            assert("9"@ =~= seq![spec_digit(d as nat)]);
        }
    }
}

fn append_digits(out: &mut String, n: usize)
    ensures
        final(out)@ == old(out)@ + spec_digits(n as nat),
    decreases n,
{
    if n < 10 {
        push_digit(out, n);
    } else {
        append_digits(out, n / 10);
        push_digit(out, n % 10);
    }
}

impl ChainName {
    /// Convert the chain name to a string, for output file names.
    pub fn to_string(&self) -> (r: String)
        ensures
            r@ == spec_name_text(self@),
    {
        match self {
            ChainName::Scoped(s) => s.clone(),
            ChainName::Anonymous(i) => {
                let mut out: String = "anon".to_owned();
                if *i < 10 {
                    out.append("000");
                } else if *i < 100 {
                    out.append("00");
                } else if *i < 1000 {
                    out.append("0");
                }
                append_digits(&mut out, *i);
                proof {
                    if *i >= 1000 {
                        assert(out@ =~= spec_name_text(self@));
                    }
                }
                out
            },
        }
    }

    /// Structural equality of names: paths compare by their text, anonymous
    /// names by their number.
    pub fn same(&self, other: &ChainName) -> (r: bool)
        ensures
            r == (self@ == other@),
    {
        match (self, other) {
            (ChainName::Scoped(a), ChainName::Scoped(b)) => {
                proof {
                    assert(self@ == NameV::Scoped(a@));
                    assert(other@ == NameV::Scoped(b@));
                }
                a.eq(b)
            },
            (ChainName::Anonymous(a), ChainName::Anonymous(b)) => {
                proof {
                    assert(self@ == NameV::Anonymous(*a as nat));
                    assert(other@ == NameV::Anonymous(*b as nat));
                }
                a == b
            },
            _ => {
                proof {
                    assert(self@ != other@);
                }
                false
            },
        }
    }

    pub fn dup(&self) -> (r: ChainName)
        ensures
            r@ == self@,
    {
        match self {
            ChainName::Scoped(s) => ChainName::Scoped(s.clone()),
            ChainName::Anonymous(i) => ChainName::Anonymous(*i),
        }
    }
}

/// The selectable properties of a note chain.
#[derive(Clone, Copy)]
pub enum Property {
    Start,
    End,
    Duration,
    All,
}

/// An operand of an expression.
pub enum Operand {
    /// A literal value.
    Var(Variable),
    /// Invocation of another chain by name.
    Id(ChainName),
    /// A property of a note chain's active note.
    Properties(ChainName, Property),
    /// A reference `n` steps back into the pipeline history, falling
    /// through to the caller's arguments past its start.
    BackLink(usize),
    /// The absolute time of the sample.
    Time,
    /// The sample rate.
    SampleRate,
    /// The window size.
    WindowSize,
    /// The look-back buffer size.
    BufferSize,
    /// The index of the sample within its window.
    WindowIndex,
    /// An inline note list.
    Notes(Vec<Note>),
    /// A parenthesised sub-expression.
    Expression(Box<Expression>),
    /// An array of sub-expressions, evaluated and collated per sample.
    Array(Vec<Expression>),
}

/// An operation over one to three operands.
pub enum Operation {
    Add(Operand, Operand),
    Subtract(Operand, Operand),
    Multiply(Operand, Operand),
    Divide(Operand, Operand),
    Remainder(Operand, Operand),
    Power(Operand, Operand),
    Min(Operand, Operand),
    Max(Operand, Operand),
    LessThan(Operand, Operand),
    GreaterThan(Operand, Operand),
    LessThanOrEqual(Operand, Operand),
    GreaterThanOrEqual(Operand, Operand),
    Equal(Operand, Operand),
    NotEqual(Operand, Operand),
    Or(Operand, Operand),
    And(Operand, Operand),
    Negate(Operand),
    Sine(Operand),
    Cosine(Operand),
    Floor(Operand),
    Ceiling(Operand),
    AbsoluteValue(Operand),
    Logarithm(Operand),
    Operand(Operand),
    Ternary(Operand, Operand, Operand),
    Index(Operand, Operand),
    SubArray(Operand, Operand, Operand),
    Average(Operand),
    Concat(Operand, Operand),
    Length(Operand),
    Find(Operand, Operand),
    FFT(Operand),
    Window(Operand),
}

/// An expression holds a top-level operation.
pub struct Expression(pub Operation);

impl Operation {
    /// The first and the optional second and third operand of the
    /// operation.
    pub fn operands(&self) -> (r: (&Operand, Option<&Operand>, Option<&Operand>))
        ensures
            *r.0 == crate::eval::spec_operands(*self).0,
            match r.1 {
                Some(b) => crate::eval::spec_operands(*self).1 == Some(*b),
                None => crate::eval::spec_operands(*self).1 is None,
            },
            match r.2 {
                Some(c) => crate::eval::spec_operands(*self).2 == Some(*c),
                None => crate::eval::spec_operands(*self).2 is None,
            },
    {
        match self {
            Operation::Add(a, b)
            | Operation::Subtract(a, b)
            | Operation::Multiply(a, b)
            | Operation::Divide(a, b)
            | Operation::Remainder(a, b)
            | Operation::Power(a, b)
            | Operation::Min(a, b)
            | Operation::Max(a, b)
            | Operation::LessThan(a, b)
            | Operation::GreaterThan(a, b)
            | Operation::LessThanOrEqual(a, b)
            | Operation::GreaterThanOrEqual(a, b)
            | Operation::Equal(a, b)
            | Operation::NotEqual(a, b)
            | Operation::Or(a, b)
            | Operation::And(a, b)
            | Operation::Index(a, b)
            | Operation::Concat(a, b)
            | Operation::Find(a, b) => (a, Some(b), None),
            Operation::Negate(a)
            | Operation::Sine(a)
            | Operation::Cosine(a)
            | Operation::Floor(a)
            | Operation::Ceiling(a)
            | Operation::AbsoluteValue(a)
            | Operation::Logarithm(a)
            | Operation::Operand(a)
            | Operation::Average(a)
            | Operation::Length(a)
            | Operation::FFT(a)
            | Operation::Window(a) => (a, None, None),
            Operation::Ternary(a, b, c) | Operation::SubArray(a, b, c) => (a, Some(b), Some(c)),
        }
    }
}

/// A link of a flattened note timeline: inline notes, or a reference to
/// another note chain.
pub enum NotesOrId {
    Id(ChainName),
    Notes(Vec<Note>),
}

/// What a chain holds: a generic pipeline of expressions, or a note
/// timeline flattened at finalization, with the overall period the notes
/// cover.
pub enum ChainLinks {
    Generic(Vec<Expression>),
    OnlyNotes(Vec<NotesOrId>, Period),
}

/// A chain: a named or anonymous sequence of links, marked when it is the
/// output chain.
pub struct Chain {
    pub name: ChainName,
    pub links: ChainLinks,
    pub play: bool,
}

/// A name in scope while chains are built: the name itself, or — for a
/// `use`-style import — its contents.
pub struct NameInScope {
    pub name: String,
    pub contents: bool,
}


/// The mathematical shape of a note.
#[verifier::ext_equal]
pub struct NoteV {
    pub pitches: Seq<u64>,
    pub period: Period,
}

impl View for Note {
    type V = NoteV;

    open spec fn view(&self) -> NoteV {
        NoteV { pitches: self.pitches@, period: self.period }
    }
}

pub open spec fn notes_of(s: Seq<Note>) -> Seq<NoteV>
    decreases s,
{
    if s.len() == 0 {
        Seq::empty()
    } else {
        seq![s[0]@] + notes_of(s.subrange(1, s.len() as int))
    }
}

pub broadcast proof fn lemma_notes_of(s: Seq<Note>)
    ensures
        (#[trigger] notes_of(s)).len() == s.len(),
        forall|i: int| 0 <= i < s.len() ==> notes_of(s)[i] == s[i]@,
    decreases s,
{
    if s.len() > 0 {
        lemma_notes_of(s.subrange(1, s.len() as int));
    }
}

/// The mathematical shape of a timeline link.
#[verifier::ext_equal]
pub enum EntryV {
    Id(NameV),
    Notes(Seq<NoteV>),
}

pub open spec fn entry_of(e: NotesOrId) -> EntryV {
    match e {
        NotesOrId::Id(name) => EntryV::Id(name@),
        NotesOrId::Notes(_) => EntryV::Notes(notes_of(e->Notes_0@)),
    }
}

impl View for NotesOrId {
    type V = EntryV;

    open spec fn view(&self) -> EntryV {
        entry_of(*self)
    }
}

pub open spec fn entries_of(s: Seq<NotesOrId>) -> Seq<EntryV>
    decreases s,
{
    if s.len() == 0 {
        Seq::empty()
    } else {
        seq![entry_of(s[0])] + entries_of(s.subrange(1, s.len() as int))
    }
}

pub broadcast proof fn lemma_entries_of(s: Seq<NotesOrId>)
    ensures
        (#[trigger] entries_of(s)).len() == s.len(),
        forall|i: int| 0 <= i < s.len() ==> entries_of(s)[i] == entry_of(s[i]),
    decreases s,
{
    if s.len() > 0 {
        lemma_entries_of(s.subrange(1, s.len() as int));
    }
}

/// The mathematical shape of a chain's links.
#[verifier::ext_equal]
pub enum LinksV {
    Generic(Seq<Expression>),
    OnlyNotes(Seq<EntryV>, Period),
}

pub open spec fn links_of(l: ChainLinks) -> LinksV {
    match l {
        ChainLinks::Generic(_) => LinksV::Generic(l->Generic_0@),
        ChainLinks::OnlyNotes(_, period) => LinksV::OnlyNotes(entries_of(l->OnlyNotes_0@), period),
    }
}

impl View for ChainLinks {
    type V = LinksV;

    open spec fn view(&self) -> LinksV {
        links_of(*self)
    }
}

} // verus!
