//! Cell storage: addresses, stored cells and the sheet that maps one to the other.
//!
//! The sheet is pure storage. Nothing here interprets a cell's text.

use std::collections::HashMap;
use std::ops::Add;
use vstd::prelude::*;
use vstd::std_specs::ops::AddSpecImpl;

verus! {

broadcast use vstd::std_specs::hash::group_hash_axioms;

/// Zero-based address of a cell.
#[derive(Clone, Copy, PartialEq, Eq, Hash, Debug, Structural)]
pub struct CellIdx {
    pub col: u32,
    pub row: u32,
}

impl CellIdx {
    /// The address packed into one number: the column above the row.
    pub open spec fn key(self) -> u64 {
        (self.col as u64 * 0x1_0000_0000 + self.row as u64) as u64
    }

    /// The address that `key` packs into `k`.
    pub open spec fn of_key(k: u64) -> CellIdx {
        CellIdx { col: (k / 0x1_0000_0000) as u32, row: (k % 0x1_0000_0000) as u32 }
    }

    /// Packing loses nothing: every address is found again from its key.
    pub proof fn lemma_key_round_trip(self)
        ensures
            CellIdx::of_key(self.key()) == self,
    {
    }

    /// Two addresses share a key only if they are the same address.
    pub proof fn lemma_key_injective(self, other: CellIdx)
        ensures
            self.key() == other.key() <==> self == other,
    {
        self.lemma_key_round_trip();
        other.lemma_key_round_trip();
    }

    fn packed(&self) -> (k: u64)
        ensures
            k == self.key(),
    {
        self.col as u64 * 0x1_0000_0000 + self.row as u64
    }
}

impl AddSpecImpl for CellIdx {
    open spec fn obeys_add_spec() -> bool {
        true
    }

    open spec fn add_req(self, other: CellIdx) -> bool {
        self.col + other.col <= u32::MAX && self.row + other.row <= u32::MAX
    }

    open spec fn add_spec(self, other: CellIdx) -> CellIdx {
        CellIdx { col: (self.col + other.col) as u32, row: (self.row + other.row) as u32 }
    }
}

/// Component-wise sum, which turns an index relative to the viewport into an
/// absolute address. Both sums must fit the address range.
impl Add for CellIdx {
    type Output = CellIdx;

    fn add(self, other: CellIdx) -> (sum: CellIdx) {
        CellIdx { col: self.col + other.col, row: self.row + other.row }
    }
}

/// Which backend interprets a cell's text.
#[derive(Clone, Copy, PartialEq, Eq, Hash, Debug, Structural)]
pub enum EngineType {
    /// The text is a constant, or `=` followed by one absolute cell reference.
    Simple,
    /// The text is an expression for the embedded script evaluator.
    Python,
}

/// A stored cell: the backend chosen for it and its raw text.
#[derive(Clone, PartialEq, Eq, Hash, Debug)]
pub struct Cell {
    pub engine: EngineType,
    pub value: String,
}

/// What a stored cell is to the specifications: its backend and its characters.
pub struct CellView {
    pub engine: EngineType,
    pub text: Seq<char>,
}

impl View for Cell {
    type V = CellView;

    open spec fn view(&self) -> CellView {
        CellView { engine: self.engine, text: self.value@ }
    }
}

/// Address to stored cell. An address without an entry reads as empty text
/// under the `Simple` backend.
#[derive(Clone)]
pub struct Sheet {
    cells: HashMap<u64, Cell>,
}

impl View for Sheet {
    type V = Map<CellIdx, CellView>;

    closed spec fn view(&self) -> Map<CellIdx, CellView> {
        Map::new(
            |idx: CellIdx| self.cells@.contains_key(idx.key()),
            |idx: CellIdx| self.cells@[idx.key()]@,
        )
    }
}

impl Sheet {
    /// The raw text at `idx`; empty where nothing is stored.
    pub open spec fn text_at(self, idx: CellIdx) -> Seq<char> {
        if self@.contains_key(idx) {
            self@[idx].text
        } else {
            Seq::empty()
        }
    }

    /// The backend of `idx`; `Simple` where nothing is stored.
    pub open spec fn engine_at(self, idx: CellIdx) -> EngineType {
        if self@.contains_key(idx) {
            self@[idx].engine
        } else {
            EngineType::Simple
        }
    }

    /// A sheet holds finitely many cells.
    pub proof fn lemma_finitely_many_cells(&self)
        ensures
            self@.dom().finite(),
    {
        let keys = self.cells@.dom();
        let unpack = |k: u64| CellIdx::of_key(k);
        keys.lemma_map_finite(unpack);
        assert forall|idx: CellIdx| self@.dom().contains(idx) implies keys.map(unpack).contains(
            idx,
        ) by {
            idx.lemma_key_round_trip();
            assert(keys.contains(idx.key()) && unpack(idx.key()) == idx);
        }
        vstd::set_lib::lemma_set_subset_finite(keys.map(unpack), self@.dom());
    }

    pub fn new() -> (sheet: Sheet)
        ensures
            sheet@ == Map::<CellIdx, CellView>::empty(),
    {
        let sheet = Sheet { cells: HashMap::new() };
        assert(sheet@ =~= Map::<CellIdx, CellView>::empty());
        sheet
    }

    /// Stores `value` at `idx`, replacing the whole cell that was there.
    pub fn insert(&mut self, idx: CellIdx, value: Cell)
        ensures
            final(self)@ == old(self)@.insert(idx, value@),
    {
        let k = idx.packed();
        self.cells.insert(k, value);
        proof {
            assert forall|other: CellIdx| other != idx implies other.key() != idx.key() by {
                other.lemma_key_injective(idx);
            }
            assert(self@ =~= old(self)@.insert(idx, value@));
        }
    }

    /// The cell stored at `idx`, if there is one.
    pub fn get(&self, idx: &CellIdx) -> (found: Option<&Cell>)
        ensures
            match found {
                Some(cell) => self@.contains_key(*idx) && cell@ == self@[*idx],
                None => !self@.contains_key(*idx),
            },
    {
        let k = idx.packed();
        self.cells.get(&k)
    }

    /// Replaces the text at `idx`. The cell keeps the backend it had; a new
    /// cell gets `Simple`.
    pub fn set_text(&mut self, idx: CellIdx, value: String)
        ensures
            final(self)@ == old(self)@.insert(
                idx,
                CellView { engine: old(self).engine_at(idx), text: value@ },
            ),
    {
        let engine = match self.get(&idx) {
            Some(current) => current.engine,
            None => EngineType::Simple,
        };
        self.insert(idx, Cell { engine, value });
    }

    /// The raw text at `idx`; the empty string where nothing is stored.
    pub fn get_text(&self, idx: &CellIdx) -> (text: String)
        ensures
            text@ == self.text_at(*idx),
    {
        match self.get(idx) {
            Some(cell) => cell.value.clone(),
            None => String::new(),
        }
    }
}

} // verus!
