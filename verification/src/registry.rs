//! The chain registry: chains under construction, the scope stack, and the
//! finalized chains that evaluation reads, with scoped name resolution.

use crate::chain::{
    entries_of, entry_of, notes_of, spec_duration, Chain, ChainLinks, ChainName, EntryV,
    Expression, LinksV, NameInScope, NameV, Note, NoteV, NotesOrId, Operand, Operation, Period,
};
use crate::error::{Error, ErrorSpec, SonnyResult};
use crate::scalar::{add_bits, f64_add, F64_ONE, F64_ZERO};
use crate::token::CodeLocation;
use vstd::prelude::*;

verus! {

broadcast use vstd::std_specs::vec::group_vec_axioms, vstd::seq::group_seq_axioms;

/// Bits of 120.0, the default tempo in beats per minute.
pub const F64_TEMPO_DEFAULT: u64 = 0x405E_0000_0000_0000;

/// The first chain of the registry whose name has this text form, scanned
/// front to back.
pub open spec fn spec_lookup(chains: Seq<Chain>, key: NameV) -> Option<Chain>
    decreases chains,
{
    if chains.len() == 0 {
        None
    } else if chains[0].name@ == key {
        Some(chains[0])
    } else {
        spec_lookup(chains.subrange(1, chains.len() as int), key)
    }
}

pub broadcast proof fn lemma_lookup(chains: Seq<Chain>, key: NameV)
    ensures
        match #[trigger] spec_lookup(chains, key) {
            Some(c) => exists|i: int|
                0 <= i < chains.len() && chains[i] == c && c.name@ == key && (forall|k: int|
                    0 <= k < i ==> chains[k].name@ != key),
            None => forall|k: int| 0 <= k < chains.len() ==> chains[k].name@ != key,
        },
    decreases chains,
{
    if chains.len() > 0 {
        let t = chains.subrange(1, chains.len() as int);
        lemma_lookup(t, key);
        if chains[0].name@ != key {
            match spec_lookup(t, key) {
                Some(c) => {
                    let i = choose|i: int|
                        0 <= i < t.len() && t[i] == c && c.name@ == key && (forall|k: int|
                            0 <= k < i ==> t[k].name@ != key);
                    assert(chains[i + 1] == t[i]);
                    assert forall|k: int| 0 <= k < i + 1 implies chains[k].name@ != key by {
                        if k > 0 {
                            assert(t[k - 1] == chains[k]);
                        }
                    }
                },
                None => {
                    assert forall|k: int| 0 <= k < chains.len() implies chains[k].name@ != key by {
                        if k > 0 {
                            assert(t[k - 1] == chains[k]);
                        }
                    }
                },
            }
        }
    }
}

/// A match at index `j`, with no earlier match, determines the lookup.
pub proof fn lemma_lookup_at(chains: Seq<Chain>, key: NameV, j: int)
    requires
        0 <= j < chains.len(),
        chains[j].name@ == key,
        forall|k: int| 0 <= k < j ==> chains[k].name@ != key,
    ensures
        spec_lookup(chains, key) == Some(chains[j]),
    decreases chains,
{
    if j > 0 {
        let t = chains.subrange(1, chains.len() as int);
        assert forall|k: int| 0 <= k < j - 1 implies t[k].name@ != key by {
            assert(t[k] == chains[k + 1]);
        }
        assert(t[j - 1] == chains[j]);
        lemma_lookup_at(t, key, j - 1);
    }
}

/// Two path segments joined by the scope separator.
pub open spec fn spec_join(a: Seq<char>, b: Seq<char>) -> Seq<char> {
    a + "::"@ + b
}

/// The path holds a scope separator somewhere.
pub open spec fn has_sep(s: Seq<char>) -> bool {
    exists|i: int| 0 <= i < s.len() - 1 && (#[trigger] s[i]) == ':' && s[i + 1] == ':'
}

/// The last `::`-separated segment of a path: the path itself when it has
/// no separator, else the last segment of what follows the first one.
pub open spec fn spec_last_segment(s: Seq<char>) -> Seq<char>
    decreases s.len(),
{
    if !has_sep(s) {
        s
    } else if s[0] == ':' && s[1] == ':' {
        spec_last_segment(s.subrange(2, s.len() as int))
    } else {
        spec_last_segment(s.subrange(1, s.len() as int))
    }
}

/// The first position of the scope separator, when there is one.
fn first_sep(s: &str) -> (r: Option<usize>)
    ensures
        match r {
            Some(i) => i + 1 < s@.len() && s@[i as int] == ':' && s@[i + 1] == ':',
            None => !has_sep(s@),
        },
{
    let n = s.unicode_len();
    if n < 2 {
        return None;
    }
    let mut i: usize = 0;
    while i < n - 1
        invariant
            i <= n - 1,
            n == s@.len(),
            forall|k: int| 0 <= k < i ==> !((#[trigger] s@[k]) == ':' && s@[k + 1] == ':'),
        decreases n - 1 - i,
    {
        if s.get_char(i) == ':' && s.get_char(i + 1) == ':' {
            return Some(i);
        }
        i += 1;
    }
    None
}

/// The last `::`-separated segment of a path.
pub fn last_segment(s: &str) -> (r: String)
    ensures
        r@ == spec_last_segment(s@),
    decreases s@.len(),
{
    let n = s.unicode_len();
    match first_sep(s) {
        Some(i) => {
            proof {
                assert(has_sep(s@));
            }
            if s.get_char(0) == ':' && s.get_char(1) == ':' {
                last_segment(s.substring_char(2, n))
            } else {
                last_segment(s.substring_char(1, n))
            }
        },
        None => s.to_owned(),
    }
}

/// Joins a scope entry's path with a bare identifier.
fn join_path(prefix: &str, name: &str) -> (r: String)
    ensures
        r@ == spec_join(prefix@, name@),
{
    let mut out: String = prefix.to_owned();
    out.append("::");
    out.append(name);
    out
}

/// Resolution of a bare scoped identifier against the scope stack, walked
/// outward-in, after the identifier itself failed as a fully qualified
/// key. An entry that imports its contents is tried as a prefix of the
/// identifier; any other entry matches when its last path segment is the
/// identifier, and then its own full path is looked up, ending the walk
/// whatever that lookup finds.
pub open spec fn spec_scope_walk(chains: Seq<Chain>, scope: Seq<NameInScope>, s: Seq<char>) -> Option<
    Chain,
>
    decreases scope,
{
    if scope.len() == 0 {
        None
    } else {
        let e = scope[0];
        if e.contents {
            match spec_lookup(chains, NameV::Scoped(spec_join(e.name@, s))) {
                Some(c) => Some(c),
                None => spec_scope_walk(chains, scope.subrange(1, scope.len() as int), s),
            }
        } else if spec_last_segment(e.name@) == s {
            spec_lookup(chains, NameV::Scoped(e.name@))
        } else {
            spec_scope_walk(chains, scope.subrange(1, scope.len() as int), s)
        }
    }
}

/// Scoped resolution of a chain name: an anonymous name resolves by direct
/// lookup only; a scoped name is first tried as a fully qualified key, then
/// resolved through the scope stack.
pub open spec fn spec_resolve(chains: Seq<Chain>, scope: Seq<NameInScope>, name: NameV) -> Option<
    Chain,
> {
    match name {
        NameV::Anonymous(_) => spec_lookup(chains, name),
        NameV::Scoped(s) => match spec_lookup(chains, name) {
            Some(c) => Some(c),
            None => spec_scope_walk(chains, scope, s),
        },
    }
}


/// The full path a named chain declared now would get: the innermost
/// enclosing named scope's path joined with the local name, or the local
/// name alone at the top level.
pub open spec fn spec_scoped_name(b: Builder, cn: Seq<char>) -> Seq<char> {
    if b.curr_chains@.len() > 0 && b.names_in_scope@.len() > 0 {
        spec_join(b.names_in_scope@.last().name@, cn)
    } else {
        cn
    }
}

/// The notes of a timeline link, re-laid end to end from `curr`: each note
/// keeps its duration, starts where the previous one ended, and the second
/// component is where the last one ends.
pub open spec fn spec_shift_notes(notes: Seq<NoteV>, curr: u64) -> (Seq<NoteV>, u64)
    decreases notes,
{
    if notes.len() == 0 {
        (Seq::empty(), curr)
    } else {
        let d = spec_duration(notes[0].period);
        let shifted = NoteV {
            pitches: notes[0].pitches,
            period: Period { start: curr, end: f64_add(curr, d) },
        };
        let rest = spec_shift_notes(notes.subrange(1, notes.len() as int), f64_add(curr, d));
        (seq![shifted] + rest.0, rest.1)
    }
}

/// What finalization decides about a generic chain's links: they convert
/// to a note timeline, they stay generic, or a referenced name does not
/// resolve.
#[verifier::ext_equal]
pub enum ConvOutcome {
    /// The links convert: the flattened timeline and the time its periods
    /// reach.
    Convert(Seq<EntryV>, u64),
    /// Some link is neither a note list nor a reference to a finalized
    /// note chain: the chain stays generic.
    Stay,
    /// A referenced chain cannot be found.
    Unresolved(NameV),
}

/// The finalization walk over a generic chain's links: literal note lists
/// are re-laid at the running time, references to finalized note chains
/// advance it by their period's duration, and anything else stops the
/// conversion.
pub open spec fn spec_convert(
    links: Seq<Expression>,
    chains: Seq<Chain>,
    scope: Seq<NameInScope>,
    curr: u64,
) -> ConvOutcome
    decreases links.len(),
{
    if links.len() == 0 {
        ConvOutcome::Convert(Seq::empty(), curr)
    } else {
        match links[0].0 {
            Operation::Operand(Operand::Notes(notes)) => {
                let sh = spec_shift_notes(notes_of(notes@), curr);
                match spec_convert(links.subrange(1, links.len() as int), chains, scope, sh.1) {
                    ConvOutcome::Convert(rest, end) => ConvOutcome::Convert(
                        seq![EntryV::Notes(sh.0)] + rest,
                        end,
                    ),
                    other => other,
                }
            },
            Operation::Operand(Operand::Id(id)) => match spec_resolve(chains, scope, id@) {
                Some(c) => match c.links {
                    ChainLinks::OnlyNotes(_, period) => {
                        let t2 = f64_add(curr, spec_duration(period));
                        match spec_convert(
                            links.subrange(1, links.len() as int),
                            chains,
                            scope,
                            t2,
                        ) {
                            ConvOutcome::Convert(rest, end) => ConvOutcome::Convert(
                                seq![EntryV::Id(id@)] + rest,
                                end,
                            ),
                            other => other,
                        }
                    },
                    _ => ConvOutcome::Stay,
                },
                None => ConvOutcome::Unresolved(id@),
            },
            _ => ConvOutcome::Stay,
        }
    }
}

/// An already-collected timeline prefix carried over an outcome.
pub open spec fn conv_with_prefix(pre: Seq<EntryV>, o: ConvOutcome) -> ConvOutcome {
    match o {
        ConvOutcome::Convert(rest, end) => ConvOutcome::Convert(pre + rest, end),
        _ => o,
    }
}

/// The builder manages the initialization, construction and finalization
/// of chains; most of its methods are called by the parser. Finalized
/// chains are kept in declaration order and looked up front to back.
pub struct Builder {
    /// The chains being built, innermost last; not yet visible to lookup.
    pub curr_chains: Vec<Chain>,
    /// The names in scope, outermost first.
    pub names_in_scope: Vec<NameInScope>,
    /// The finalized chains.
    pub chains: Vec<Chain>,
    /// The number of the next anonymous chain.
    pub next_anon_chain: usize,
    /// How many anonymous chains are open; named chains cannot be created
    /// while this is nonzero.
    pub anon_chain_depth: usize,
    /// The tempo in beats per minute, as binary64 bits.
    pub tempo: u64,
    /// The time the audio stops at, as binary64 bits.
    pub end_time: u64,
}

impl Builder {
    /// A fresh builder: nothing declared, tempo 120 beats per minute, end
    /// time one second.
    pub fn new() -> (r: Builder)
        ensures
            r.curr_chains@.len() == 0,
            r.names_in_scope@.len() == 0,
            r.chains@.len() == 0,
            r.next_anon_chain == 0,
            r.anon_chain_depth == 0,
            r.tempo == F64_TEMPO_DEFAULT,
            r.end_time == F64_ONE,
    {
        Builder {
            curr_chains: Vec::new(),
            names_in_scope: Vec::new(),
            chains: Vec::new(),
            next_anon_chain: 0,
            anon_chain_depth: 0,
            tempo: F64_TEMPO_DEFAULT,
            end_time: F64_ONE,
        }
    }

    /// Finds a finalized chain by name, resolving a bare identifier
    /// through the scope stack.
    pub fn find_chain(&self, name: &ChainName) -> (r: Option<&Chain>)
        ensures
            match r {
                Some(c) => spec_resolve(self.chains@, self.names_in_scope@, name@) == Some(*c),
                None => spec_resolve(self.chains@, self.names_in_scope@, name@) is None,
            },
    {
        match name {
            ChainName::Anonymous(_) => self.lookup(name),
            ChainName::Scoped(name_str) => {
                match self.lookup(name) {
                    Some(c) => Some(c),
                    None => self.scope_walk(name_str),
                }
            },
        }
    }

    /// Direct lookup of a fully qualified name, front to back.
    #[verifier::loop_isolation(false)]
    fn lookup(&self, name: &ChainName) -> (r: Option<&Chain>)
        ensures
            match r {
                Some(c) => spec_lookup(self.chains@, name@) == Some(*c),
                None => spec_lookup(self.chains@, name@) is None,
            },
    {
        broadcast use lemma_lookup;

        let mut j: usize = 0;
        while j < self.chains.len()
            invariant
                j <= self.chains@.len(),
                forall|k: int| 0 <= k < j ==> self.chains@[k].name@ != name@,
            decreases self.chains@.len() - j,
        {
            if self.chains[j].name.same(name) {
                proof {
                    lemma_lookup_at(self.chains@, name@, j as int);
                }
                return Some(&self.chains[j]);
            }
            j += 1;
        }
        None
    }

    /// The scope walk for a bare identifier, outermost entry first.
    #[verifier::loop_isolation(false)]
    fn scope_walk(&self, name_str: &String) -> (r: Option<&Chain>)
        ensures
            match r {
                Some(c) => spec_scope_walk(self.chains@, self.names_in_scope@, name_str@) == Some(
                    *c,
                ),
                None => spec_scope_walk(self.chains@, self.names_in_scope@, name_str@) is None,
            },
    {
        proof {
            assert(self.names_in_scope@.subrange(0, self.names_in_scope@.len() as int)
                =~= self.names_in_scope@);
        }
        let mut j: usize = 0;
        while j < self.names_in_scope.len()
            invariant
                j <= self.names_in_scope@.len(),
                spec_scope_walk(self.chains@, self.names_in_scope@, name_str@)
                    == spec_scope_walk(
                    self.chains@,
                    self.names_in_scope@.subrange(j as int, self.names_in_scope@.len() as int),
                    name_str@,
                ),
            decreases self.names_in_scope@.len() - j,
        {
            let ghost rest = self.names_in_scope@.subrange(
                j as int,
                self.names_in_scope@.len() as int,
            );
            proof {
                assert(rest[0] == self.names_in_scope@[j as int]);
                assert(rest.subrange(1, rest.len() as int) =~= self.names_in_scope@.subrange(
                    j + 1,
                    self.names_in_scope@.len() as int,
                ));
            }
            let entry_contents = self.names_in_scope[j].contents;
            if entry_contents {
                let test_name = ChainName::Scoped(
                    join_path(self.names_in_scope[j].name.as_str(), name_str.as_str()),
                );
                match self.lookup(&test_name) {
                    Some(c) => {
                        return Some(c);
                    },
                    None => {},
                }
            } else {
                let seg = last_segment(self.names_in_scope[j].name.as_str());
                if seg.eq(name_str) {
                    let full = ChainName::Scoped(self.names_in_scope[j].name.clone());
                    return self.lookup(&full);
                }
            }
            j += 1;
        }
        proof {
            assert(self.names_in_scope@.subrange(
                self.names_in_scope@.len() as int,
                self.names_in_scope@.len() as int,
            ) =~= Seq::<NameInScope>::empty());
        }
        None
    }

    /// Pushes a `use`-style scope entry: the path's own name, or — when
    /// `contents` is set — everything under it.
    pub fn import_scope(&mut self, path: String, contents: bool)
        ensures
            final(self).names_in_scope@ == old(self).names_in_scope@.push(
                NameInScope { name: path, contents },
            ),
            final(self).curr_chains@ == old(self).curr_chains@,
            final(self).chains@ == old(self).chains@,
            final(self).next_anon_chain == old(self).next_anon_chain,
            final(self).anon_chain_depth == old(self).anon_chain_depth,
            final(self).tempo == old(self).tempo,
            final(self).end_time == old(self).end_time,
    {
        self.names_in_scope.push(NameInScope { name: path, contents });
    }

    /// Marks the chain currently being built as the output chain.
    pub fn play_chain(&mut self)
        requires
            old(self).curr_chains@.len() > 0,
        ensures
            final(self).curr_chains@.len() == old(self).curr_chains@.len(),
            final(self).curr_chains@.last().name@ == old(self).curr_chains@.last().name@,
            final(self).curr_chains@.last().links == old(self).curr_chains@.last().links,
            final(self).curr_chains@.last().play,
            forall|i: int|
                0 <= i < old(self).curr_chains@.len() - 1 ==> final(self).curr_chains@[i] == old(
                    self,
                ).curr_chains@[i],
            final(self).names_in_scope@ == old(self).names_in_scope@,
            final(self).chains@ == old(self).chains@,
            final(self).next_anon_chain == old(self).next_anon_chain,
            final(self).anon_chain_depth == old(self).anon_chain_depth,
            final(self).tempo == old(self).tempo,
            final(self).end_time == old(self).end_time,
    {
        let n = self.curr_chains.len();
        let name = self.curr_chains[n - 1].name.dup();
        let mut chain = self.curr_chains.pop().unwrap();
        chain.play = true;
        chain.name = name;
        self.curr_chains.push(chain);
    }

    /// Appends an expression to the chain currently being built.
    pub fn new_expression(&mut self, expression: Expression)
        requires
            old(self).curr_chains@.len() > 0,
            old(self).curr_chains@.last().links is Generic,
        ensures
            final(self).curr_chains@.len() == old(self).curr_chains@.len(),
            final(self).curr_chains@.last().name@ == old(self).curr_chains@.last().name@,
            final(self).curr_chains@.last().play == old(self).curr_chains@.last().play,
            final(self).curr_chains@.last().links is Generic,
            final(self).curr_chains@.last().links->Generic_0@ == old(
                self,
            ).curr_chains@.last().links->Generic_0@.push(expression),
            forall|i: int|
                0 <= i < old(self).curr_chains@.len() - 1 ==> final(self).curr_chains@[i] == old(
                    self,
                ).curr_chains@[i],
            final(self).names_in_scope@ == old(self).names_in_scope@,
            final(self).chains@ == old(self).chains@,
            final(self).next_anon_chain == old(self).next_anon_chain,
            final(self).anon_chain_depth == old(self).anon_chain_depth,
            final(self).tempo == old(self).tempo,
            final(self).end_time == old(self).end_time,
    {
        let n = self.curr_chains.len();
        let name = self.curr_chains[n - 1].name.dup();
        let play = self.curr_chains[n - 1].play;
        let mut chain = self.curr_chains.pop().unwrap();
        match &mut chain.links {
            ChainLinks::Generic(expressions) => {
                expressions.push(expression);
            },
            ChainLinks::OnlyNotes(..) => {},
        }
        chain.name = name;
        chain.play = play;
        self.curr_chains.push(chain);
    }

    /// Initializes a new chain. A named chain cannot open inside an
    /// anonymous one; its resolved path is the enclosing named scope's
    /// path joined with the local name, and that path enters the scope
    /// stack whether or not the declaration is then refused as a
    /// redeclaration. An anonymous chain takes the next serial number and
    /// deepens the anonymous nesting.
    pub fn new_chain(&mut self, chain_name: Option<String>, line: CodeLocation) -> (r: SonnyResult<
        ChainName,
    >)
        requires
            old(self).next_anon_chain < usize::MAX,
            old(self).anon_chain_depth < usize::MAX,
        ensures
            final(self).chains@ == old(self).chains@,
            final(self).tempo == old(self).tempo,
            final(self).end_time == old(self).end_time,
            match chain_name {
                Some(cn) => {
                    if old(self).anon_chain_depth > 0 {
                        &&& *final(self) == *old(self)
                        &&& r matches Err(e) && (e.spec matches ErrorSpec::NamedChainInAnonChain(
                            s,
                        ) && s@ == cn@) && (e.location matches Some(l) && l.line == line.line
                            && l.column == line.column && l.file@ == line.file@)
                    } else {
                        let full = spec_scoped_name(*old(self), cn@);
                        &&& final(self).names_in_scope@.len() == old(self).names_in_scope@.len()
                            + 1
                        &&& final(self).names_in_scope@.last().name@ == full
                        &&& final(self).names_in_scope@.last().contents
                        &&& final(self).names_in_scope@.subrange(
                            0,
                            old(self).names_in_scope@.len() as int,
                        ) == old(self).names_in_scope@
                        &&& final(self).next_anon_chain == old(self).next_anon_chain
                        &&& final(self).anon_chain_depth == old(self).anon_chain_depth
                        &&& if spec_resolve(
                            old(self).chains@,
                            final(self).names_in_scope@,
                            NameV::Scoped(full),
                        ) is Some {
                            &&& final(self).curr_chains@ == old(self).curr_chains@
                            &&& r matches Err(e) && (e.spec
                                matches ErrorSpec::ChainRedeclaration(n) && n@ == NameV::Scoped(
                                full,
                            )) && e.location is None
                        } else {
                            &&& final(self).curr_chains@.len() == old(self).curr_chains@.len()
                                + 1
                            &&& final(self).curr_chains@.subrange(
                                0,
                                old(self).curr_chains@.len() as int,
                            ) == old(self).curr_chains@
                            &&& final(self).curr_chains@.last().name@ == NameV::Scoped(full)
                            &&& final(self).curr_chains@.last().links@ == LinksV::Generic(
                                Seq::<Expression>::empty(),
                            )
                            &&& !final(self).curr_chains@.last().play
                            &&& r matches Ok(n) && (n@ == NameV::Scoped(full))
                        }
                    }
                },
                None => {
                    let name = NameV::Anonymous(old(self).next_anon_chain as nat);
                    &&& final(self).names_in_scope@ == old(self).names_in_scope@
                    &&& final(self).next_anon_chain == old(self).next_anon_chain + 1
                    &&& final(self).anon_chain_depth == old(self).anon_chain_depth + 1
                    &&& if spec_resolve(old(self).chains@, old(self).names_in_scope@, name)
                        is Some {
                        &&& final(self).curr_chains@ == old(self).curr_chains@
                        &&& r matches Err(e) && (e.spec matches ErrorSpec::ChainRedeclaration(n)
                            && n@ == name) && e.location is None
                    } else {
                        &&& final(self).curr_chains@.len() == old(self).curr_chains@.len() + 1
                        &&& final(self).curr_chains@.subrange(
                            0,
                            old(self).curr_chains@.len() as int,
                        ) == old(self).curr_chains@
                        &&& final(self).curr_chains@.last().name@ == name
                        &&& final(self).curr_chains@.last().links@ == LinksV::Generic(
                            Seq::<Expression>::empty(),
                        )
                        &&& !final(self).curr_chains@.last().play
                        &&& r matches Ok(n) && (n@ == name)
                    }
                },
            },
    {
        let return_name = match chain_name {
            Some(cn) => {
                if self.anon_chain_depth > 0 {
                    return Err(
                        Error::new(ErrorSpec::NamedChainInAnonChain(cn)).on_line(line),
                    );
                }
                let final_name = if self.curr_chains.len() > 0 && self.names_in_scope.len()
                    > 0 {
                    let idx = self.names_in_scope.len() - 1;
                    join_path(self.names_in_scope[idx].name.as_str(), cn.as_str())
                } else {
                    cn
                };
                self.names_in_scope.push(
                    NameInScope { name: final_name.clone(), contents: true },
                );
                ChainName::Scoped(final_name)
            },
            None => {
                let num = self.next_anon_chain;
                self.next_anon_chain = self.next_anon_chain + 1;
                self.anon_chain_depth = self.anon_chain_depth + 1;
                ChainName::Anonymous(num)
            },
        };
        if self.find_chain(&return_name).is_some() {
            return Err(Error::new(ErrorSpec::ChainRedeclaration(return_name)));
        }
        let name_copy = return_name.dup();
        self.curr_chains.push(
            Chain { name: name_copy, links: ChainLinks::Generic(Vec::new()), play: false },
        );
        Ok(return_name)
    }

    /// The outcome finalization computes for a chain: the conversion walk
    /// for a generic chain, and the empty timeline otherwise.
    pub open spec fn spec_finalize_outcome(self, c: Chain) -> ConvOutcome {
        match c.links {
            ChainLinks::Generic(_) => spec_convert(
                c.links->Generic_0@,
                self.chains@,
                self.names_in_scope@,
                F64_ZERO,
            ),
            ChainLinks::OnlyNotes(..) => ConvOutcome::Convert(Seq::empty(), F64_ZERO),
        }
    }

    /// Pops the chain currently being built, converts it to a note
    /// timeline when every link is a literal note list or a reference to a
    /// finalized note chain, restores the scope stack, and inserts the
    /// chain into the registry. Fails only when a referenced chain cannot
    /// be found, and then changes nothing.
    #[verifier::loop_isolation(false)]
    #[verifier::rlimit(60)]
    pub fn finalize_chain(&mut self) -> (r: SonnyResult<()>)
        requires
            old(self).curr_chains@.len() > 0,
            old(self).curr_chains@.last().name is Anonymous ==> old(self).anon_chain_depth > 0,
        ensures
            match r {
                Ok(_) => {
                    let c = old(self).curr_chains@.last();
                    let outcome = old(self).spec_finalize_outcome(c);
                    &&& !(outcome is Unresolved)
                    &&& final(self).curr_chains@ == old(self).curr_chains@.subrange(
                        0,
                        old(self).curr_chains@.len() - 1,
                    )
                    &&& final(self).chains@.len() == old(self).chains@.len() + 1
                    &&& final(self).chains@.subrange(0, old(self).chains@.len() as int) == old(
                        self,
                    ).chains@
                    &&& final(self).chains@.last().name@ == c.name@
                    &&& final(self).chains@.last().play == c.play
                    &&& final(self).chains@.last().links@ == (match outcome {
                        ConvOutcome::Convert(entries, end) => LinksV::OnlyNotes(
                            entries,
                            Period { start: F64_ZERO, end },
                        ),
                        _ => c.links@,
                    })
                    &&& if c.name is Anonymous {
                        final(self).anon_chain_depth == old(self).anon_chain_depth - 1
                            && final(self).names_in_scope@ == old(self).names_in_scope@
                    } else {
                        final(self).anon_chain_depth == old(self).anon_chain_depth && final(self).names_in_scope@ == if old(self).names_in_scope@.len() > 0 {
                            old(self).names_in_scope@.subrange(
                                0,
                                old(self).names_in_scope@.len() - 1,
                            )
                        } else {
                            old(self).names_in_scope@
                        }
                    }
                    &&& final(self).next_anon_chain == old(self).next_anon_chain
                    &&& final(self).tempo == old(self).tempo
                    &&& final(self).end_time == old(self).end_time
                },
                Err(e) => {
                    let c = old(self).curr_chains@.last();
                    let outcome = old(self).spec_finalize_outcome(c);
                    &&& *final(self) == *old(self)
                    &&& outcome matches ConvOutcome::Unresolved(nm) && (e.spec
                        matches ErrorSpec::CantFindChain(cn) && cn@ == nm) && e.location is None
                },
            },
    {
        broadcast use crate::chain::lemma_entries_of, crate::chain::lemma_notes_of;

        let n = self.curr_chains.len();
        let ghost c = self.curr_chains@.last();
        let ghost outcome = self.spec_finalize_outcome(c);
        let mut convert = true;
        let mut only_notes: Vec<NotesOrId> = Vec::new();
        let mut curr_time: u64 = F64_ZERO;
        match &self.curr_chains[n - 1].links {
            ChainLinks::Generic(exprs) => {
                let ghost full = exprs@;
                proof {
                    assert(full.subrange(0, full.len() as int) =~= full);
                }
                let mut j: usize = 0;
                while j < exprs.len()
                    invariant
                        j <= exprs@.len(),
                        convert,
                        conv_with_prefix(
                            entries_of(only_notes@),
                            spec_convert(
                                full.subrange(j as int, full.len() as int),
                                self.chains@,
                                self.names_in_scope@,
                                curr_time,
                            ),
                        ) == outcome,
                    decreases exprs@.len() - j,
                {
                    let ghost rest = full.subrange(j as int, full.len() as int);
                    proof {
                        assert(rest[0] == full[j as int]);
                        assert(rest.subrange(1, rest.len() as int) =~= full.subrange(
                            j + 1,
                            full.len() as int,
                        ));
                    }
                    match &exprs[j].0 {
                        Operation::Operand(Operand::Notes(notes)) => {
                            let ghost full_n = notes_of(notes@);
                            let ghost curr0 = curr_time;
                            let ghost sh0 = spec_shift_notes(full_n, curr0);
                            proof {
                                assert(full_n.subrange(0, full_n.len() as int) =~= full_n);
                            }
                            let mut new_notes: Vec<Note> = Vec::new();
                            let mut k: usize = 0;
                            while k < notes.len()
                                invariant
                                    k <= notes@.len(),
                                    sh0.0 =~= notes_of(new_notes@) + spec_shift_notes(
                                        full_n.subrange(k as int, full_n.len() as int),
                                        curr_time,
                                    ).0,
                                    sh0.1 == spec_shift_notes(
                                        full_n.subrange(k as int, full_n.len() as int),
                                        curr_time,
                                    ).1,
                                decreases notes@.len() - k,
                            {
                                let ghost rest_n = full_n.subrange(
                                    k as int,
                                    full_n.len() as int,
                                );
                                proof {
                                    assert(rest_n[0] == full_n[k as int]);
                                    assert(full_n[k as int] == notes@[k as int]@);
                                    assert(rest_n.subrange(1, rest_n.len() as int)
                                        =~= full_n.subrange(k + 1, full_n.len() as int));
                                }
                                let d = notes[k].period.duration();
                                let nc = add_bits(curr_time, d);
                                let shifted = Note {
                                    pitches: notes[k].pitches.clone(),
                                    period: Period { start: curr_time, end: nc },
                                };
                                proof {
                                    assert(notes_of(new_notes@.push(shifted)) =~= notes_of(
                                        new_notes@,
                                    ) + seq![shifted@]);
                                    assert(sh0.0 =~= notes_of(new_notes@.push(shifted))
                                        + spec_shift_notes(
                                        full_n.subrange(k + 1, full_n.len() as int),
                                        nc,
                                    ).0);
                                }
                                new_notes.push(shifted);
                                curr_time = nc;
                                k += 1;
                            }
                            proof {
                                assert(full_n.subrange(
                                    full_n.len() as int,
                                    full_n.len() as int,
                                ) =~= Seq::<NoteV>::empty());
                                assert(sh0.0 =~= notes_of(new_notes@));
                                assert(sh0.1 == curr_time);
                            }
                            let entry = NotesOrId::Notes(new_notes);
                            proof {
                                assert(entry_of(entry) == EntryV::Notes(sh0.0));
                                assert(entries_of(only_notes@.push(entry)) =~= entries_of(
                                    only_notes@,
                                ) + seq![entry_of(entry)]);
                                assert(conv_with_prefix(
                                    entries_of(only_notes@.push(entry)),
                                    spec_convert(
                                        full.subrange(j + 1, full.len() as int),
                                        self.chains@,
                                        self.names_in_scope@,
                                        curr_time,
                                    ),
                                ) =~= outcome);
                            }
                            only_notes.push(entry);
                        },
                        Operation::Operand(Operand::Id(id)) => {
                            match self.find_chain(id) {
                                Some(notes_chain) => {
                                    match &notes_chain.links {
                                        ChainLinks::OnlyNotes(_, period) => {
                                            let d = period.duration();
                                            curr_time = add_bits(curr_time, d);
                                            let entry = NotesOrId::Id(id.dup());
                                            proof {
                                                assert(entry_of(entry) == EntryV::Id(id@));
                                                assert(entries_of(only_notes@.push(entry))
                                                    =~= entries_of(only_notes@) + seq![entry_of(
                                                    entry,
                                                )]);
                                                assert(conv_with_prefix(
                                                    entries_of(only_notes@.push(entry)),
                                                    spec_convert(
                                                        full.subrange(j + 1, full.len() as int),
                                                        self.chains@,
                                                        self.names_in_scope@,
                                                        curr_time,
                                                    ),
                                                ) =~= outcome);
                                            }
                                            only_notes.push(entry);
                                        },
                                        ChainLinks::Generic(_) => {
                                            convert = false;
                                        },
                                    }
                                },
                                None => {
                                    return Err(
                                        Error::new(ErrorSpec::CantFindChain(id.dup())),
                                    );
                                },
                            }
                        },
                        _ => {
                            convert = false;
                        },
                    }
                    if !convert {
                        break;
                    }
                    j += 1;
                }
                proof {
                    if convert {
                        assert(full.subrange(full.len() as int, full.len() as int)
                            =~= Seq::<Expression>::empty());
                        assert(entries_of(only_notes@) + Seq::<EntryV>::empty() =~= entries_of(
                            only_notes@,
                        ));
                        assert(outcome == ConvOutcome::Convert(
                            entries_of(only_notes@),
                            curr_time,
                        ));
                    }
                }
            },
            ChainLinks::OnlyNotes(..) => {
                proof {
                    assert(entries_of(only_notes@) =~= Seq::<EntryV>::empty());
                }
            },
        }
        let mut chain = match self.curr_chains.pop() {
            Some(chain) => chain,
            None => {
                proof {
                    assert(false);
                }
                return Ok(());
            },
        };
        if convert {
            chain.links = ChainLinks::OnlyNotes(
                only_notes,
                Period { start: F64_ZERO, end: curr_time },
            );
        }
        match &chain.name {
            ChainName::Anonymous(_) => {
                self.anon_chain_depth = self.anon_chain_depth - 1;
            },
            ChainName::Scoped(_) => {
                if self.names_in_scope.len() > 0 {
                    let _popped = self.names_in_scope.pop();
                }
            },
        }
        self.chains.push(chain);
        Ok(())
    }
}

} // verus!
