//! The Master identity pin.
//!
//! It answers one question: is this key the Master that this process pinned? The database's unique
//! index guarantees that at most one Master row exists; the pin guards identity, since whoever can
//! write to the database needs no second Master, only to demote the real one and promote another.

use vstd::prelude::*;

use crate::entities::api_key;
use crate::ids;
use crate::text;

verus! {

/// Table that holds the Master row.
pub const API_KEYS_TABLE: &'static str = "api_keys";

/// Name of the unique index over the generated `master_marker` column.
pub const MASTER_MARKER_INDEX: &'static str = "idx-api_keys-master_marker";

/// Failure modes of pinning or resolving the Master identity.
#[derive(Debug)]
pub enum MasterPinError {
    /// No row is the Master.
    NoMaster,
    /// More than one row is the Master: the uniqueness index has been bypassed or is missing.
    MultipleMasters(Vec<u128>),
    /// The uniqueness index is missing from the database.
    MissingUniquenessIndex,
    /// The lookup itself failed.
    Db(String),
}

/// What a [`MasterPinError`] says.
pub enum MasterPinFault {
    /// No row is the Master.
    NoMaster,
    /// More than one row is the Master.
    MultipleMasters(Seq<u128>),
    /// The uniqueness index is missing from the database.
    MissingUniquenessIndex,
    /// The lookup itself failed.
    Db(Seq<char>),
}

impl View for MasterPinError {
    type V = MasterPinFault;

    open spec fn view(&self) -> MasterPinFault {
        match self {
            MasterPinError::NoMaster => MasterPinFault::NoMaster,
            MasterPinError::MultipleMasters(ids) => MasterPinFault::MultipleMasters(ids@),
            MasterPinError::MissingUniquenessIndex => MasterPinFault::MissingUniquenessIndex,
            MasterPinError::Db(m) => MasterPinFault::Db(m@),
        }
    }
}

impl MasterPinFault {
    /// The text an operator reads.
    pub open spec fn text(self) -> Seq<char> {
        match self {
            MasterPinFault::NoMaster => "no Master key exists"@,
            MasterPinFault::MultipleMasters(ids) => "multiple Master keys exist: ["@ + text::joined(
                ids.map_values(|id: u128| ids::id_text(id)),
                ", "@,
            ) + "]"@,
            MasterPinFault::MissingUniquenessIndex => {
                "master_marker uniqueness index is missing"@
            },
            MasterPinFault::Db(m) => m,
        }
    }
}

impl MasterPinError {
    /// The text an operator reads.
    pub fn message(&self) -> (r: String)
        ensures
            r@ == self@.text(),
    {
        match self {
            MasterPinError::NoMaster => "no Master key exists".to_owned(),
            MasterPinError::MultipleMasters(masters) => {
                let mut parts: Vec<String> = Vec::new();
                for i in 0..masters.len()
                    invariant
                        parts@.len() == i,
                        forall|j: int|
                            0 <= j < i ==> (#[trigger] parts@[j])@ == ids::id_text(masters@[j]),
                {
                    parts.push(ids::id_string(masters[i]));
                }
                assert(text::texts(parts@) =~= masters@.map_values(|id: u128| ids::id_text(id)));
                text::concat3(
                    "multiple Master keys exist: [",
                    text::join(&parts, ", ").as_str(),
                    "]",
                )
            },
            MasterPinError::MissingUniquenessIndex => {
                "master_marker uniqueness index is missing".to_owned()
            },
            MasterPinError::Db(m) => m.clone(),
        }
    }
}

/// The one Master among the rows marked as such.
pub open spec fn only_master(masters: Seq<u128>) -> Result<u128, MasterPinFault> {
    if masters.len() == 1 {
        Ok(masters[0])
    } else if masters.len() == 0 {
        Err(MasterPinFault::NoMaster)
    } else {
        Err(MasterPinFault::MultipleMasters(masters))
    }
}

/// The one Master among the rows marked as such.
pub fn sole_master(masters: &Vec<u128>) -> (r: Result<u128, MasterPinError>)
    ensures
        match only_master(masters@) {
            Ok(id) => r == Ok::<u128, MasterPinError>(id),
            Err(fault) => r is Err && r->Err_0@ == fault,
        },
{
    if masters.len() == 1 {
        Ok(masters[0])
    } else if masters.len() == 0 {
        Err(MasterPinError::NoMaster)
    } else {
        let mut copy: Vec<u128> = Vec::new();
        for i in 0..masters.len()
            invariant
                copy@ == masters@.take(i as int),
        {
            copy.push(masters[i]);
            assert(copy@ =~= masters@.take(i + 1));
        }
        assert(copy@ =~= masters@);
        Err(MasterPinError::MultipleMasters(copy))
    }
}

/// A key as it is admitted under a pin: marked as Master only if it is the pinned one.
pub open spec fn admitted(pinned: Option<u128>, key: api_key::Model) -> api_key::Model {
    api_key::Model { is_master: key.is_master && pinned == Some(key.id), ..key }
}

/// A write-once pin to the id of the single Master key.
#[derive(Debug)]
pub struct MasterPin {
    pinned: Option<u128>,
}

impl View for MasterPin {
    type V = Option<u128>;

    /// The pinned id.
    closed spec fn view(&self) -> Option<u128> {
        self.pinned
    }
}

impl MasterPin {
    /// A pin that holds nothing yet.
    pub fn new() -> (pin: Self)
        ensures
            pin@ is None,
    {
        MasterPin { pinned: None }
    }

    /// A pin to `id`.
    pub fn pinned_to(id: u128) -> (pin: Self)
        ensures
            pin@ == Some(id),
    {
        MasterPin { pinned: Some(id) }
    }

    /// The pinned id, if there is one.
    pub fn get(&self) -> (r: Option<u128>)
        ensures
            r == self@,
    {
        self.pinned
    }

    /// Pins the Master identity to the one row marked as Master, provided that the uniqueness index
    /// is there. A pin that is set stays as it is.
    pub fn pin_at_boot(&mut self, masters: &Vec<u128>, index_present: bool) -> (r: Result<
        u128,
        MasterPinError,
    >)
        ensures
            match old(self)@ {
                Some(id) => r == Ok::<u128, MasterPinError>(id) && final(self)@ == old(self)@,
                None => match only_master(masters@) {
                    Err(fault) => r is Err && r->Err_0@ == fault && final(self)@ is None,
                    Ok(id) => if index_present {
                        r == Ok::<u128, MasterPinError>(id) && final(self)@ == Some(id)
                    } else {
                        r is Err && r->Err_0@ == MasterPinFault::MissingUniquenessIndex && final(self)@ is None
                    },
                },
            },
    {
        if let Some(id) = self.pinned {
            return Ok(id);
        }
        let id = match sole_master(masters) {
            Ok(id) => id,
            Err(e) => return Err(e),
        };
        if !index_present {
            return Err(MasterPinError::MissingUniquenessIndex);
        }
        self.pinned = Some(id);
        Ok(id)
    }

    /// The single point every authenticated request passes through: a key marked as Master that is
    /// not the pinned one loses the mark. It is never refused for it, so that a forged mark learns
    /// nothing.
    pub fn authenticate(&self, key: api_key::Model) -> (r: api_key::Model)
        ensures
            r == admitted(self@, key),
    {
        let genuine = match self.pinned {
            Some(id) => id == key.id,
            None => false,
        };
        api_key::Model { is_master: key.is_master && genuine, ..key }
    }
}

/// A key that is admitted as Master is the pinned one, so that under one pin all keys so admitted
/// have one id; with nothing pinned there is none.
pub proof fn law_only_the_pinned_key_is_master(
    pinned: Option<u128>,
    a: api_key::Model,
    b: api_key::Model,
)
    requires
        admitted(pinned, a).is_master,
    ensures
        pinned == Some(a.id),
        admitted(pinned, b).is_master ==> a.id == b.id,
{
}

/// There is one Master exactly where one row is marked as such, and it is that row; none and several
/// are told apart, and several are all named.
pub proof fn law_one_row_is_the_master(masters: Seq<u128>, id: u128)
    ensures
        only_master(masters) == Ok::<u128, MasterPinFault>(id) <==> masters == seq![id],
        only_master(masters) == Err::<u128, MasterPinFault>(MasterPinFault::NoMaster)
            <==> masters.len() == 0,
        masters.len() > 1 ==> only_master(masters) == Err::<u128, MasterPinFault>(
            MasterPinFault::MultipleMasters(masters),
        ),
{
    if masters.len() == 1 {
        assert(masters =~= seq![masters[0]]);
    }
}

/// The pinned key stays what it is, and no key loses anything but a false mark: whoever is not marked
/// as Master is not made one.
pub proof fn law_genuine_keys_stay_as_they_are(pinned: Option<u128>, key: api_key::Model)
    ensures
        pinned == Some(key.id) ==> admitted(pinned, key) == key,
        !key.is_master ==> admitted(pinned, key) == key,
        pinned != Some(key.id) ==> !admitted(pinned, key).is_master,
        key == (api_key::Model { is_master: key.is_master, ..admitted(pinned, key) }),
{
}

/// What an operator reads of the Master's identity.
pub proof fn law_pin_errors_say_what_is_wrong(e: MasterPinError, m: String, ids: Vec<u128>)
    ensures
        e is NoMaster ==> e@.text() == "no Master key exists"@,
        e == MasterPinError::MultipleMasters(ids) ==> e@.text() == "multiple Master keys exist: ["@
            + text::joined(ids@.map_values(|id: u128| ids::id_text(id)), ", "@) + "]"@,
        e is MissingUniquenessIndex ==> e@.text() == "master_marker uniqueness index is missing"@,
        e == MasterPinError::Db(m) ==> e@.text() == m@,
{
}

} // verus!
