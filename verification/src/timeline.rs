//! The note timeline resolver: finding the note that sounds at an absolute
//! time, across literal note lists and references to other note chains.

use crate::chain::{
    entries_of, notes_of, ChainLinks, EntryV, LinksV, NameInScope, Note, NoteV, NotesOrId, Period,
};
use crate::error::{Error, ErrorSpec, SonnyResult};
use crate::registry::{spec_resolve, Builder};
use crate::scalar::{add_bits, f64_add, f64_le, f64_lt, le_bits, lt_bits};
use crate::chain::{spec_contains, spec_duration, Chain};
use vstd::prelude::*;

verus! {

broadcast use vstd::std_specs::vec::group_vec_axioms, vstd::seq::group_seq_axioms;

/// Why a note lookup can fail fatally.
#[verifier::ext_equal]
pub enum FindFault {
    /// The links looked into hold expressions, not notes.
    Generic,
    /// A referenced chain cannot be found.
    Unresolved(crate::chain::NameV),
    /// A referenced chain is not a note chain.
    RefGeneric(crate::chain::NameV),
    /// The chain-level period contains the time but no note covers it.
    Inconsistent,
    /// The references nest deeper than the recursion guard allows.
    Exhausted(crate::chain::NameV),
}

/// What a note lookup yields: the note sounding at the time, silence when
/// the time lies outside the timeline's period, or a fault.
#[verifier::ext_equal]
pub enum FindRes {
    Found(NoteV),
    Missing,
    Fault(FindFault),
}

/// The period shifted right by `local` seconds.
pub open spec fn spec_shift_period(p: Period, local: u64) -> Period {
    Period { start: f64_add(p.start, local), end: f64_add(p.end, local) }
}

/// The first note of the list whose shifted period contains the time,
/// returned as a shifted copy.
pub open spec fn spec_scan_notes(notes: Seq<NoteV>, time: u64, local: u64) -> Option<NoteV>
    decreases notes,
{
    if notes.len() == 0 {
        None
    } else if spec_contains(spec_shift_period(notes[0].period, local), time) {
        Some(NoteV { pitches: notes[0].pitches, period: spec_shift_period(notes[0].period, local) })
    } else {
        spec_scan_notes(notes.subrange(1, notes.len() as int), time, local)
    }
}

/// The walk along a timeline's links, carrying the accumulated offset: an
/// inline note list must contain the time or the timeline is inconsistent;
/// a reference is resolved and searched recursively, and advances the
/// offset by the referenced chain's duration when the time is not there.
pub open spec fn spec_walk_entries(
    entries: Seq<EntryV>,
    time: u64,
    local: u64,
    chains: Seq<Chain>,
    scope: Seq<NameInScope>,
    fuel: nat,
) -> FindRes
    decreases fuel, 0int, entries.len(),
{
    if entries.len() == 0 {
        FindRes::Fault(FindFault::Inconsistent)
    } else {
        match entries[0] {
            EntryV::Id(id) => match spec_resolve(chains, scope, id) {
                Some(c) => match c.links {
                    ChainLinks::OnlyNotes(_, period) => if fuel == 0 {
                        FindRes::Fault(FindFault::Exhausted(id))
                    } else {
                        match spec_find_note(
                            c.links@,
                            time,
                            local,
                            chains,
                            scope,
                            (fuel - 1) as nat,
                        ) {
                            FindRes::Missing => spec_walk_entries(
                                entries.subrange(1, entries.len() as int),
                                time,
                                f64_add(local, spec_duration(period)),
                                chains,
                                scope,
                                fuel,
                            ),
                            other => other,
                        }
                    },
                    ChainLinks::Generic(_) => FindRes::Fault(FindFault::RefGeneric(id)),
                },
                None => FindRes::Fault(FindFault::Unresolved(id)),
            },
            EntryV::Notes(notes) => match spec_scan_notes(notes, time, local) {
                Some(n) => FindRes::Found(n),
                None => FindRes::Fault(FindFault::Inconsistent),
            },
        }
    }
}

/// The note sounding at `time` in a note timeline whose own period is
/// shifted by `off`: silence when the time lies outside the shifted
/// period, else the walk along the links must find it.
pub open spec fn spec_find_note(
    links: LinksV,
    time: u64,
    off: u64,
    chains: Seq<Chain>,
    scope: Seq<NameInScope>,
    fuel: nat,
) -> FindRes
    decreases fuel, 1int, 0int,
{
    match links {
        LinksV::Generic(_) => FindRes::Fault(FindFault::Generic),
        LinksV::OnlyNotes(_, period) => {
            if f64_lt(time, f64_add(period.start, off)) || f64_le(f64_add(period.end, off), time) {
                FindRes::Missing
            } else {
                spec_walk_entries(links->OnlyNotes_0, time, off, chains, scope, fuel)
            }
        },
    }
}

impl ChainLinks {
    /// When called on a note timeline, the note whose period contains the
    /// given time, its period shifted into absolute seconds. The start
    /// offset is zero at the outermost call; recursive calls pass the
    /// accumulated offset. `depth` guards the reference recursion.
    #[verifier::loop_isolation(false)]
    pub fn find_note(
        &self,
        time: u64,
        start_offset: u64,
        builder: &Builder,
        depth: usize,
    ) -> (r: SonnyResult<Option<Note>>)
        ensures
            ({
                let outcome = spec_find_note(
                    self@,
                    time,
                    start_offset,
                    builder.chains@,
                    builder.names_in_scope@,
                    depth as nat,
                );
                match r {
                    Ok(found) => match found {
                        Some(note) => outcome == FindRes::Found(note@),
                        None => outcome == FindRes::Missing,
                    },
                    Err(e) => outcome is Fault && e.location is None && (match outcome->Fault_0 {
                        FindFault::Generic => e.spec is NotesOfGenericChain,
                        FindFault::Unresolved(nm) => e.spec matches ErrorSpec::CantFindChain(cn)
                            && cn@ == nm,
                        FindFault::RefGeneric(_) => e.spec is NotesOfGenericChain,
                        FindFault::Inconsistent => e.spec is NoteTimelineInconsistent,
                        FindFault::Exhausted(nm) => e.spec
                            matches ErrorSpec::RecursionDepthExceeded(cn) && cn@ == nm,
                    }),
                }
            }),
        decreases depth,
    {
        broadcast use crate::chain::lemma_entries_of, crate::chain::lemma_notes_of;

        let ghost chains0 = builder.chains@;
        let ghost scope0 = builder.names_in_scope@;
        match self {
            ChainLinks::Generic(_) => Err(Error::new(ErrorSpec::NotesOfGenericChain)),
            ChainLinks::OnlyNotes(entries, period) => {
                if lt_bits(time, add_bits(period.start, start_offset)) || le_bits(
                    add_bits(period.end, start_offset),
                    time,
                ) {
                    return Ok(None);
                }
                let ghost full = entries_of(entries@);
                proof {
                    assert(full.subrange(0, full.len() as int) =~= full);
                }
                let mut local: u64 = start_offset;
                let mut j: usize = 0;
                while j < entries.len()
                    invariant
                        j <= entries@.len(),
                        spec_walk_entries(
                            full.subrange(j as int, full.len() as int),
                            time,
                            local,
                            chains0,
                            scope0,
                            depth as nat,
                        ) == spec_walk_entries(
                            full,
                            time,
                            start_offset,
                            chains0,
                            scope0,
                            depth as nat,
                        ),
                    decreases entries@.len() - j,
                {
                    let ghost rest = full.subrange(j as int, full.len() as int);
                    proof {
                        assert(rest[0] == full[j as int]);
                        assert(full[j as int] == entries@[j as int]@);
                        assert(rest.subrange(1, rest.len() as int) =~= full.subrange(
                            j + 1,
                            full.len() as int,
                        ));
                    }
                    match &entries[j] {
                        NotesOrId::Id(id) => {
                            match builder.find_chain(id) {
                                Some(chain) => {
                                    match &chain.links {
                                        ChainLinks::OnlyNotes(_, period2) => {
                                            if depth == 0 {
                                                return Err(
                                                    Error::new(
                                                        ErrorSpec::RecursionDepthExceeded(
                                                            id.dup(),
                                                        ),
                                                    ),
                                                );
                                            }
                                            let this_offset = local;
                                            let d = period2.duration();
                                            local = add_bits(local, d);
                                            match chain.links.find_note(
                                                time,
                                                this_offset,
                                                builder,
                                                depth - 1,
                                            ) {
                                                Ok(Some(note)) => {
                                                    return Ok(Some(note));
                                                },
                                                Ok(None) => {},
                                                Err(e) => {
                                                    return Err(e);
                                                },
                                            }
                                        },
                                        ChainLinks::Generic(_) => {
                                            return Err(
                                                Error::new(ErrorSpec::NotesOfGenericChain),
                                            );
                                        },
                                    }
                                },
                                None => {
                                    return Err(
                                        Error::new(ErrorSpec::CantFindChain(id.dup())),
                                    );
                                },
                            }
                        },
                        NotesOrId::Notes(notes) => {
                            let ghost full_n = notes_of(notes@);
                            proof {
                                assert(full_n.subrange(0, full_n.len() as int) =~= full_n);
                            }
                            let mut k: usize = 0;
                            while k < notes.len()
                                invariant
                                    k <= notes@.len(),
                                    spec_scan_notes(
                                        full_n.subrange(k as int, full_n.len() as int),
                                        time,
                                        local,
                                    ) == spec_scan_notes(full_n, time, local),
                                decreases notes@.len() - k,
                            {
                                let ghost rest_n = full_n.subrange(
                                    k as int,
                                    full_n.len() as int,
                                );
                                proof {
                                    assert(rest_n[0] == full_n[k as int]);
                                    assert(full_n[k as int] == notes@[k as int]@);
                                    assert(rest_n.subrange(1, rest_n.len() as int)
                                        =~= full_n.subrange(k + 1, full_n.len() as int));
                                }
                                let ps = add_bits(notes[k].period.start, local);
                                let pe = add_bits(notes[k].period.end, local);
                                if le_bits(ps, time) && lt_bits(time, pe) {
                                    return Ok(
                                        Some(
                                            Note {
                                                pitches: notes[k].pitches.clone(),
                                                period: Period { start: ps, end: pe },
                                            },
                                        ),
                                    );
                                }
                                k += 1;
                            }
                            proof {
                                assert(full_n.subrange(full_n.len() as int, full_n.len() as int)
                                    =~= Seq::<NoteV>::empty());
                            }
                            return Err(Error::new(ErrorSpec::NoteTimelineInconsistent));
                        },
                    }
                    j += 1;
                }
                proof {
                    assert(full.subrange(full.len() as int, full.len() as int)
                        =~= Seq::<EntryV>::empty());
                }
                Err(Error::new(ErrorSpec::NoteTimelineInconsistent))
            },
        }
    }
}


/// The walk over a timeline's links never reports silence: it finds the
/// note, or it faults.
proof fn lemma_walk_never_missing(
    entries: Seq<EntryV>,
    time: u64,
    local: u64,
    chains: Seq<Chain>,
    scope: Seq<NameInScope>,
    fuel: nat,
)
    ensures
        !(spec_walk_entries(entries, time, local, chains, scope, fuel) is Missing),
    decreases fuel, 0int, entries.len(),
{
    if entries.len() > 0 {
        match entries[0] {
            EntryV::Id(id) => match spec_resolve(chains, scope, id) {
                Some(c) => match c.links {
                    ChainLinks::OnlyNotes(_, period) => {
                        if fuel > 0 {
                            match spec_find_note(
                                c.links@,
                                time,
                                local,
                                chains,
                                scope,
                                (fuel - 1) as nat,
                            ) {
                                FindRes::Missing => {
                                    lemma_walk_never_missing(
                                        entries.subrange(1, entries.len() as int),
                                        time,
                                        f64_add(local, spec_duration(period)),
                                        chains,
                                        scope,
                                        fuel,
                                    );
                                },
                                _ => {},
                            }
                        }
                    },
                    _ => {},
                },
                None => {},
            },
            EntryV::Notes(_) => {},
        }
    }
}

/// A timeline is silent at a time exactly when the time lies outside its
/// own period, shifted by the offset; inside it, the lookup finds a note
/// or faults, never silence.
pub proof fn lemma_find_note_missing_iff(
    links: LinksV,
    time: u64,
    off: u64,
    chains: Seq<Chain>,
    scope: Seq<NameInScope>,
    fuel: nat,
)
    requires
        links is OnlyNotes,
    ensures
        spec_find_note(links, time, off, chains, scope, fuel) is Missing <==> (f64_lt(
            time,
            f64_add(links->OnlyNotes_1.start, off),
        ) || f64_le(f64_add(links->OnlyNotes_1.end, off), time)),
{
    lemma_walk_never_missing(links->OnlyNotes_0, time, off, chains, scope, fuel);
}

/// A note the scan yields has its shifted period containing the time.
proof fn lemma_scan_notes_contains(notes: Seq<NoteV>, time: u64, local: u64)
    ensures
        match spec_scan_notes(notes, time, local) {
            Some(nv) => spec_contains(nv.period, time),
            None => true,
        },
    decreases notes,
{
    if notes.len() > 0 && !spec_contains(spec_shift_period(notes[0].period, local), time) {
        lemma_scan_notes_contains(notes.subrange(1, notes.len() as int), time, local);
    }
}

proof fn lemma_walk_found_contains(
    entries: Seq<EntryV>,
    time: u64,
    local: u64,
    chains: Seq<Chain>,
    scope: Seq<NameInScope>,
    fuel: nat,
)
    ensures
        match spec_walk_entries(entries, time, local, chains, scope, fuel) {
            FindRes::Found(nv) => spec_contains(nv.period, time),
            _ => true,
        },
    decreases fuel, 0int, entries.len(),
{
    if entries.len() > 0 {
        match entries[0] {
            EntryV::Id(id) => match spec_resolve(chains, scope, id) {
                Some(c) => match c.links {
                    ChainLinks::OnlyNotes(_, period) => {
                        if fuel > 0 {
                            lemma_find_note_found_contains(
                                c.links@,
                                time,
                                local,
                                chains,
                                scope,
                                (fuel - 1) as nat,
                            );
                            match spec_find_note(
                                c.links@,
                                time,
                                local,
                                chains,
                                scope,
                                (fuel - 1) as nat,
                            ) {
                                FindRes::Missing => {
                                    lemma_walk_found_contains(
                                        entries.subrange(1, entries.len() as int),
                                        time,
                                        f64_add(local, spec_duration(period)),
                                        chains,
                                        scope,
                                        fuel,
                                    );
                                },
                                _ => {},
                            }
                        }
                    },
                    _ => {},
                },
                None => {},
            },
            EntryV::Notes(notes) => {
                lemma_scan_notes_contains(notes, time, local);
            },
        }
    }
}

/// A note the timeline lookup finds sounds at the queried time: its
/// shifted, absolute period contains it.
pub proof fn lemma_find_note_found_contains(
    links: LinksV,
    time: u64,
    off: u64,
    chains: Seq<Chain>,
    scope: Seq<NameInScope>,
    fuel: nat,
)
    ensures
        match spec_find_note(links, time, off, chains, scope, fuel) {
            FindRes::Found(nv) => spec_contains(nv.period, time),
            _ => true,
        },
    decreases fuel, 1int, 0int,
{
    match links {
        LinksV::OnlyNotes(..) => {
            lemma_walk_found_contains(links->OnlyNotes_0, time, off, chains, scope, fuel);
        },
        _ => {},
    }
}

} // verus!
