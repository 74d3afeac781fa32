//! The X11 side of clipboard sharing: selection requests, their replies, and
//! the mapping between X11 atoms and clipboard content types.
use vstd::prelude::*;
use super::clientpipe::ClipboardType;

verus! {

/// The atoms the clipboard bridge uses.
#[derive(Debug, Clone, Copy, PartialEq, Eq, Structural)]
pub struct Atoms {
    pub clipboard: u32,
    pub targets: u32,
    pub utf8_string: u32,
    pub property: u32,
    pub png: u32,
}

/// A pending X11 selection request.
#[derive(Debug, Clone, Copy, PartialEq, Eq, Structural)]
pub struct ClipboardRequestEvent {
    pub time: u32,
    pub requestor: u32,
    pub selection: u32,
    pub target: u32,
    pub property: u32,
    pub desired_type: ClipboardType,
}

/// The answer to a selection request.
#[derive(Debug, Clone)]
pub enum ClipboardResponse {
    Types(Vec<ClipboardType>),
    Data(Vec<u8>),
}

/// A selection request with its answer.
#[derive(Debug, Clone)]
pub struct ClipboardRequestResponse {
    pub event: ClipboardRequestEvent,
    pub response: ClipboardResponse,
}

impl ClipboardRequestEvent {
    /// Answers the request with data.
    pub fn reply_data(self, response: Vec<u8>) -> (r: ClipboardRequestResponse)
        ensures
            r.event == self,
            r.response matches ClipboardResponse::Data(d) && d@ == response@,
    {
        ClipboardRequestResponse { event: self, response: ClipboardResponse::Data(response) }
    }

    /// Answers the request with the list of available types.
    pub fn reply_types(self, types: Vec<ClipboardType>) -> (r: ClipboardRequestResponse)
        ensures
            r.event == self,
            r.response matches ClipboardResponse::Types(t) && t@ == types@,
    {
        ClipboardRequestResponse { event: self, response: ClipboardResponse::Types(types) }
    }

    pub fn desired_type(&self) -> (r: ClipboardType)
        ensures
            r == self.desired_type,
    {
        self.desired_type
    }
}

/// The content type an atom names, if it names one.
pub open spec fn spec_atom_to_cliptype(a: Atoms, atom: u32) -> Option<ClipboardType> {
    if atom == a.targets {
        Some(ClipboardType::NoType)
    } else if atom == a.utf8_string {
        Some(ClipboardType::Text)
    } else if atom == a.png {
        Some(ClipboardType::Image)
    } else {
        None
    }
}

/// The atom that names a content type (there is none for "no type").
pub open spec fn spec_cliptype_to_atom(a: Atoms, kind: ClipboardType) -> Option<u32> {
    match kind {
        ClipboardType::NoType => None,
        ClipboardType::Text => Some(a.utf8_string),
        ClipboardType::Image => Some(a.png),
    }
}

impl Atoms {
    /// The pending request for a selection request event of X11: the type
    /// asked for is the one the target atom names, text when it names none.
    pub fn selection_request(&self, time: u32, requestor: u32, selection: u32, target: u32, property: u32)
        -> (r: ClipboardRequestEvent)
        ensures
            r == (ClipboardRequestEvent {
                time,
                requestor,
                selection,
                target,
                property,
                desired_type: match spec_atom_to_cliptype(*self, target) {
                    Some(t) => t,
                    None => ClipboardType::Text,
                },
            }),
    {
        let desired_type = match self.atom_to_cliptype(target) {
            Some(t) => t,
            None => ClipboardType::Text,
        };
        ClipboardRequestEvent { time, requestor, selection, target, property, desired_type }
    }

    pub fn atom_to_cliptype(&self, atom: u32) -> (r: Option<ClipboardType>)
        ensures
            r == spec_atom_to_cliptype(*self, atom),
    {
        if atom == self.targets {
            Some(ClipboardType::NoType)
        } else if atom == self.utf8_string {
            Some(ClipboardType::Text)
        } else if atom == self.png {
            Some(ClipboardType::Image)
        } else {
            None
        }
    }

    pub fn cliptype_to_atom(&self, kind: ClipboardType) -> (r: Option<u32>)
        ensures
            r == spec_cliptype_to_atom(*self, kind),
    {
        match kind {
            ClipboardType::NoType => None,
            ClipboardType::Text => Some(self.utf8_string),
            ClipboardType::Image => Some(self.png),
        }
    }

    /// The atom to ask the selection owner for: the type's atom, or the list
    /// of targets when no type is given.
    pub fn read_target(&self, kind: ClipboardType) -> (r: u32)
        ensures
            r == match spec_cliptype_to_atom(*self, kind) { Some(t) => t, None => self.targets },
    {
        match self.cliptype_to_atom(kind) {
            Some(t) => t,
            None => self.targets,
        }
    }

    /// The content types named by a list of target atoms, in order, skipping
    /// atoms that name none.
    pub fn formats_of_targets(&self, targets: &Vec<u32>) -> (r: Vec<ClipboardType>)
        ensures
            r@ == spec_formats_of_targets(*self, targets@),
    {
        let mut out: Vec<ClipboardType> = Vec::new();
        let mut i: usize = 0;
        while i < targets.len()
            invariant
                i <= targets@.len(),
                out@ == spec_formats_of_targets(*self, targets@.subrange(0, i as int)),
            decreases targets@.len() - i,
        {
            assert(targets@.subrange(0, i + 1).drop_last() =~= targets@.subrange(0, i as int));
            match self.atom_to_cliptype(targets[i]) {
                Some(t) => out.push(t),
                None => {}
            }
            i = i + 1;
        }
        assert(targets@.subrange(0, targets@.len() as int) =~= targets@);
        out
    }

    /// The atoms to announce for a list of content types: the atoms of the
    /// types that have one, then the targets atom.
    pub fn atoms_of_types(&self, kinds: &Vec<ClipboardType>) -> (r: Vec<u32>)
        ensures
            r@ == spec_atoms_of_types(*self, kinds@).push(self.targets),
    {
        let mut out: Vec<u32> = Vec::new();
        let mut i: usize = 0;
        while i < kinds.len()
            invariant
                i <= kinds@.len(),
                out@ == spec_atoms_of_types(*self, kinds@.subrange(0, i as int)),
            decreases kinds@.len() - i,
        {
            assert(kinds@.subrange(0, i + 1).drop_last() =~= kinds@.subrange(0, i as int));
            match self.cliptype_to_atom(kinds[i]) {
                Some(t) => out.push(t),
                None => {}
            }
            i = i + 1;
        }
        assert(kinds@.subrange(0, kinds@.len() as int) =~= kinds@);
        out.push(self.targets);
        out
    }
}

pub open spec fn spec_formats_of_targets(a: Atoms, targets: Seq<u32>) -> Seq<ClipboardType>
    decreases targets.len(),
{
    if targets.len() == 0 {
        Seq::empty()
    } else {
        let prev = spec_formats_of_targets(a, targets.drop_last());
        match spec_atom_to_cliptype(a, targets.last()) {
            Some(t) => prev.push(t),
            None => prev,
        }
    }
}

pub open spec fn spec_atoms_of_types(a: Atoms, kinds: Seq<ClipboardType>) -> Seq<u32>
    decreases kinds.len(),
{
    if kinds.len() == 0 {
        Seq::empty()
    } else {
        let prev = spec_atoms_of_types(a, kinds.drop_last());
        match spec_cliptype_to_atom(a, kinds.last()) {
            Some(t) => prev.push(t),
            None => prev,
        }
    }
}

/// When the atoms are distinct, announcing a type list and reading it back
/// gives the list without its "no type" entries, followed by "no type" for the
/// targets atom itself.
pub proof fn law_types_roundtrip(a: Atoms, kinds: Seq<ClipboardType>)
    requires
        a.targets != a.utf8_string,
        a.targets != a.png,
        a.utf8_string != a.png,
    ensures
        spec_formats_of_targets(a, spec_atoms_of_types(a, kinds).push(a.targets))
            == kinds.filter(|k: ClipboardType| k != ClipboardType::NoType).push(ClipboardType::NoType),
    decreases kinds.len(),
{
    let atoms = spec_atoms_of_types(a, kinds);
    assert(atoms.push(a.targets).drop_last() =~= atoms);
    law_types_roundtrip_inner(a, kinds);
}

proof fn law_types_roundtrip_inner(a: Atoms, kinds: Seq<ClipboardType>)
    requires
        a.targets != a.utf8_string,
        a.targets != a.png,
        a.utf8_string != a.png,
    ensures
        spec_formats_of_targets(a, spec_atoms_of_types(a, kinds))
            == kinds.filter(|k: ClipboardType| k != ClipboardType::NoType),
    decreases kinds.len(),
{
    reveal_with_fuel(Seq::filter, 1);
    if kinds.len() > 0 {
        law_types_roundtrip_inner(a, kinds.drop_last());
        let prev = spec_atoms_of_types(a, kinds.drop_last());
        match spec_cliptype_to_atom(a, kinds.last()) {
            Some(t) => {
                assert(prev.push(t).drop_last() =~= prev);
            }
            None => {}
        }
    }
}

} // verus!
