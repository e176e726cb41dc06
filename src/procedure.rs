use vstd::prelude::*;

use crate::types::Type;

verus! {

/// A callable procedure exported by a µRPC server.
///
/// Descriptors come only from the server's procedure table; to call one,
/// use `Client::call`.
pub struct Procedure {
    id: u16,
    parameters: Vec<Type>,
    returns: Option<Type>,
}

/// What a procedure descriptor says: its id, its parameter types in order,
/// and its return type if it has one.
pub struct ProcedureModel {
    pub id: u16,
    pub parameters: Seq<Type>,
    pub returns: Option<Type>,
}

impl View for Procedure {
    type V = ProcedureModel;

    closed spec fn view(&self) -> ProcedureModel {
        ProcedureModel { id: self.id, parameters: self.parameters@, returns: self.returns }
    }
}

/// The models of a sequence of procedures.
pub open spec fn models(procs: Seq<Procedure>) -> Seq<ProcedureModel> {
    procs.map_values(|p: Procedure| p@)
}

/// The wire bytes of a sequence of types, one byte each.
pub open spec fn type_bytes(types: Seq<Type>) -> Seq<u8> {
    types.map_values(|t: Type| t.wire_byte())
}

/// The flags byte of a descriptor: the high bit says whether there is a
/// return value, the low seven bits give the number of parameters.
pub open spec fn flags_byte(p: ProcedureModel) -> u8 {
    ((if p.returns is Some { 0x80int } else { 0int }) + p.parameters.len()) as u8
}

/// A descriptor as the server sends it: flags, then the return type if
/// there is one, then the parameter types in order.
pub open spec fn descriptor_bytes(p: ProcedureModel) -> Seq<u8> {
    seq![flags_byte(p)] + match p.returns {
        Some(t) => seq![t.wire_byte()],
        None => Seq::<u8>::empty(),
    } + type_bytes(p.parameters)
}

/// The descriptors of a table, in order.
pub open spec fn table_bytes(t: Seq<ProcedureModel>) -> Seq<u8>
    decreases t.len(),
{
    if t.len() == 0 {
        Seq::<u8>::empty()
    } else {
        table_bytes(t.drop_last()) + descriptor_bytes(t.last())
    }
}

/// A procedure table as enumeration produces it: at most 65535 entries,
/// the entry at each index has that index as its id, and at most 127
/// parameters each.
pub open spec fn well_formed_table(t: Seq<ProcedureModel>) -> bool {
    &&& t.len() <= 0xffff
    &&& forall|i: int| 0 <= i < t.len() ==> #[trigger] t[i].id == i && t[i].parameters.len() <= 127
}

impl Procedure {
    /// Creates a descriptor with id `id`.
    pub(crate) fn new(id: u16, parameters: Vec<Type>, returns: Option<Type>) -> (r: Procedure)
        ensures
            r@ == (ProcedureModel { id, parameters: parameters@, returns }),
    {
        Procedure { id, parameters, returns }
    }

    /// Gets the id used to call the procedure.
    pub fn id(&self) -> (r: u16)
        ensures
            r == self@.id,
    {
        self.id
    }

    /// Gets the types of the parameters the procedure expects.
    pub fn parameter_types(&self) -> (r: &[Type])
        ensures
            r@ == self@.parameters,
    {
        self.parameters.as_slice()
    }

    /// Gets the type of the return value, if the procedure returns one.
    pub fn return_type(&self) -> (r: Option<Type>)
        ensures
            r == self@.returns,
    {
        self.returns
    }
}

} // verus!
