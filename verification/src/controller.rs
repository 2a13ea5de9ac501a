use vstd::prelude::*;

verus! {

/// Cell density: how many bits one cell stores through its analog level.
#[derive(Clone, Copy, Debug, PartialEq, Eq, Structural)]
pub enum CellType {
    Single,
    Double,
    Triple,
    Quadro,
    Penta,
}

impl CellType {
    /// Bits per cell, as a mathematical value.
    pub open spec fn multiplier_spec(&self) -> u8 {
        match self {
            CellType::Single => 1,
            CellType::Double => 2,
            CellType::Triple => 3,
            CellType::Quadro => 4,
            CellType::Penta => 5,
        }
    }

    /// Bits per cell: 1 for Single up to 5 for Penta.
    pub fn multiplier(&self) -> (m: u8)
        ensures
            m == self.multiplier_spec(),
            1 <= m <= 5,
    {
        match self {
            CellType::Single => 1,
            CellType::Double => 2,
            CellType::Triple => 3,
            CellType::Quadro => 4,
            CellType::Penta => 5,
        }
    }
}

/// Logical occupancy of one page, as a controller above this layer would
/// track it. It is orthogonal to the raw analog content a page stores and
/// is not wired into the device model here.
#[derive(Clone, Copy, Debug)]
pub enum CellState {
    Empty,
    Stored(CellType),
    ResetPending,
}

/// The kind of device operation the timing table prices.
#[derive(Clone, Copy, Debug, PartialEq, Eq, Structural)]
pub enum OperationType {
    Read,
    Write,
    Delete,
}

/// The latency table as a mathematical function.
pub open spec fn operation_time_spec(cell_type: CellType, operation_type: OperationType) -> u32 {
    match (cell_type, operation_type) {
        (CellType::Single, OperationType::Read) => 3,
        (CellType::Double, OperationType::Read) => 6,
        (CellType::Triple, OperationType::Read) => 12,
        (CellType::Quadro, OperationType::Read) => 25,
        (CellType::Penta, OperationType::Read) => 50,
        (CellType::Single, OperationType::Write) => 20,
        (CellType::Double, OperationType::Write) => 60,
        (CellType::Triple, OperationType::Write) => 150,
        (CellType::Quadro, OperationType::Write) => 300,
        (CellType::Penta, OperationType::Write) => 600,
        (CellType::Single, OperationType::Delete) => 350,
        (CellType::Double, OperationType::Delete) => 700,
        (CellType::Triple, OperationType::Delete) => 1400,
        (CellType::Quadro, OperationType::Delete) => 2200,
        (CellType::Penta, OperationType::Delete) => 3000,
    }
}

/// Descriptive cost of one operation at one density, for an external
/// scheduler to charge. A pure lookup with no failure mode.
pub fn operation_time(cell_type: CellType, operation_type: OperationType) -> (t: u32)
    ensures
        t == operation_time_spec(cell_type, operation_type),
{
    match (cell_type, operation_type) {
        (CellType::Single, OperationType::Read) => 3,
        (CellType::Double, OperationType::Read) => 6,
        (CellType::Triple, OperationType::Read) => 12,
        (CellType::Quadro, OperationType::Read) => 25,
        (CellType::Penta, OperationType::Read) => 50,
        (CellType::Single, OperationType::Write) => 20,
        (CellType::Double, OperationType::Write) => 60,
        (CellType::Triple, OperationType::Write) => 150,
        (CellType::Quadro, OperationType::Write) => 300,
        (CellType::Penta, OperationType::Write) => 600,
        (CellType::Single, OperationType::Delete) => 350,
        (CellType::Double, OperationType::Delete) => 700,
        (CellType::Triple, OperationType::Delete) => 1400,
        (CellType::Quadro, OperationType::Delete) => 2200,
        (CellType::Penta, OperationType::Delete) => 3000,
    }
}

/// For every operation kind, cost grows strictly with cell density.
pub proof fn lemma_cost_monotonic_in_density(op: OperationType)
    ensures
        operation_time_spec(CellType::Penta, op) > operation_time_spec(CellType::Quadro, op),
        operation_time_spec(CellType::Quadro, op) > operation_time_spec(CellType::Triple, op),
        operation_time_spec(CellType::Triple, op) > operation_time_spec(CellType::Double, op),
        operation_time_spec(CellType::Double, op) > operation_time_spec(CellType::Single, op),
{
    match op {
        OperationType::Read => {},
        OperationType::Write => {},
        OperationType::Delete => {},
    }
}

/// At every density, erasing costs more than writing, and writing more
/// than reading.
pub proof fn lemma_cost_ordered_by_operation(cell_type: CellType)
    ensures
        operation_time_spec(cell_type, OperationType::Delete) > operation_time_spec(
            cell_type,
            OperationType::Write,
        ),
        operation_time_spec(cell_type, OperationType::Write) > operation_time_spec(
            cell_type,
            OperationType::Read,
        ),
{
    match cell_type {
        CellType::Single => {},
        CellType::Double => {},
        CellType::Triple => {},
        CellType::Quadro => {},
        CellType::Penta => {},
    }
}

} // verus!
