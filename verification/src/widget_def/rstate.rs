//! Widget runtime state

use vstd::prelude::*;

verus! {

/// CheckBox state
#[derive(Clone, Copy)]
pub struct ChbxState {
    pub checked: bool,
}

impl Default for ChbxState {
    fn default() -> (r: Self)
        ensures
            r.checked == false,
    {
        ChbxState { checked: false }
    }
}

/// Led state
#[derive(Clone, Copy)]
pub struct LedState {
    pub lit: bool,
}

impl Default for LedState {
    fn default() -> (r: Self)
        ensures
            r.lit == false,
    {
        LedState { lit: false }
    }
}

/// Label state
#[derive(Clone)]
pub struct LblState {
    pub txt: String,
}

impl Default for LblState {
    fn default() -> (r: Self)
        ensures
            r.txt@ == Seq::<char>::empty(),
    {
        LblState { txt: String::new() }
    }
}

/// TextEdit state
#[derive(Clone)]
pub struct TxteState {
    pub txt: String,
}

impl Default for TxteState {
    fn default() -> (r: Self)
        ensures
            r.txt@ == Seq::<char>::empty(),
    {
        TxteState { txt: String::new() }
    }
}

/// ListBox state
#[derive(Clone, Copy)]
pub struct LbxState {
    pub item_idx: i16,
    pub items_cnt: i16,
    pub sel_idx: i16,
}

impl Default for LbxState {
    fn default() -> (r: Self)
        ensures
            r.item_idx == 0,
            r.items_cnt == 0,
            r.sel_idx == 0,
    {
        LbxState { item_idx: 0, items_cnt: 0, sel_idx: 0 }
    }
}

/// ComboBox state
#[derive(Clone, Copy)]
pub struct CbbxState {
    pub item_idx: i16,
    pub items_cnt: i16,
    pub sel_idx: i16,
    pub drop_down: bool,
}

impl Default for CbbxState {
    fn default() -> (r: Self)
        ensures
            r.item_idx == 0,
            r.items_cnt == 0,
            r.sel_idx == 0,
            r.drop_down == false,
    {
        CbbxState { item_idx: 0, items_cnt: 0, sel_idx: 0, drop_down: false }
    }
}

/// ProgressBar state
#[derive(Clone, Copy)]
pub struct PgbarState {
    pub pos: i32,
    pub max: i32,
}

impl Default for PgbarState {
    fn default() -> (r: Self)
        ensures
            r.pos == 0,
            r.max == 0,
    {
        PgbarState { pos: 0, max: 0 }
    }
}

/// TextBox state
#[derive(Clone)]
pub struct TxtbxState {
    pub top_line: i16,
    pub lines: Vec<String>,
}

impl Default for TxtbxState {
    fn default() -> (r: Self)
        ensures
            r.top_line == 0,
            r.lines@.len() == 0,
    {
        TxtbxState { top_line: 0, lines: Vec::new() }
    }
}

/// PageControl state
#[derive(Clone, Copy)]
pub struct PgctrlState {
    pub page: i16,
}

impl Default for PgctrlState {
    fn default() -> (r: Self)
        ensures
            r.page == 0,
    {
        PgctrlState { page: 0 }
    }
}

} // verus!
