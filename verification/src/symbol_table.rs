//! The symbol table: three tables that only ever grow, and the stack of the
//! blocks that are open.
//!
//! `tab` holds one record for each identifier, `btab` one for each block,
//! `atab` one for each array type. `display` lists the open blocks from the
//! global one to the innermost. The identifiers of a block lie on one chain:
//! the block record points at the identifier declared last, and each
//! identifier points at the one declared before it in the same block,
//! whatever the kinds of the two. A search therefore reaches every identifier
//! of a block; what kind of object a name stands for is looked at only where
//! the name is used.
//!
//! Every index held anywhere is a plain number into one of the tables. No
//! operation panics on a table whose numbers point nowhere: it treats a
//! dangling number as the end of a chain.

use crate::text::same_text;
use crate::types::{DataType, DataTypeView, ObjectKind};
use vstd::prelude::*;

verus! {

/// How many records at the start of `tab` are taken by the reserved words and
/// the predefined procedures.
pub const RESERVED: usize = 33;

/// One identifier.
#[derive(Debug)]
pub struct TabEntry {
    pub name: String,
    /// The identifier declared before this one in the same block.
    pub link: Option<usize>,
    pub obj: ObjectKind,
    pub data_type: DataType,
    /// The block of a subprogram, or the array type of an array.
    pub ref_index: Option<usize>,
    /// False for a parameter passed by reference.
    pub normal: bool,
    /// The lexical level of the declaration.
    pub level: usize,
    /// The storage offset.
    pub address: usize,
}

/// An identifier's record as the contracts see it.
pub struct TabEntryView {
    pub name: Seq<char>,
    pub link: Option<usize>,
    pub obj: ObjectKind,
    pub data_type: DataTypeView,
    pub ref_index: Option<usize>,
    pub normal: bool,
    pub level: usize,
    pub address: usize,
}

impl View for TabEntry {
    type V = TabEntryView;

    open spec fn view(&self) -> TabEntryView {
        TabEntryView {
            name: self.name@,
            link: self.link,
            obj: self.obj,
            data_type: self.data_type@,
            ref_index: self.ref_index,
            normal: self.normal,
            level: self.level,
            address: self.address,
        }
    }
}

impl Clone for TabEntry {
    fn clone(&self) -> (r: TabEntry)
        ensures
            r@ == self@,
    {
        TabEntry {
            name: self.name.clone(),
            link: self.link,
            obj: self.obj,
            data_type: self.data_type.clone(),
            ref_index: self.ref_index,
            normal: self.normal,
            level: self.level,
            address: self.address,
        }
    }
}

/// One block: the global block, or the body of a program, a procedure or a
/// function.
#[derive(Clone, Copy, Debug, PartialEq, Eq, Structural)]
pub struct BTabEntry {
    /// The identifier declared last in the block; 0 while there is none.
    pub last: usize,
    /// The parameter declared last.
    pub last_par: usize,
    pub param_size: usize,
    pub var_size: usize,
}

/// One array type.
#[derive(Debug)]
pub struct ATabEntry {
    pub index_type: DataType,
    pub element_type: DataType,
    pub element_ref: Option<usize>,
    pub low_bound: i32,
    pub high_bound: i32,
    pub element_size: usize,
    pub total_size: usize,
}

/// An array type's record as the contracts see it.
pub struct ATabEntryView {
    pub index_type: DataTypeView,
    pub element_type: DataTypeView,
    pub element_ref: Option<usize>,
    pub low_bound: i32,
    pub high_bound: i32,
    pub element_size: usize,
    pub total_size: usize,
}

impl View for ATabEntry {
    type V = ATabEntryView;

    open spec fn view(&self) -> ATabEntryView {
        ATabEntryView {
            index_type: self.index_type@,
            element_type: self.element_type@,
            element_ref: self.element_ref,
            low_bound: self.low_bound,
            high_bound: self.high_bound,
            element_size: self.element_size,
            total_size: self.total_size,
        }
    }
}

impl Clone for ATabEntry {
    fn clone(&self) -> (r: ATabEntry)
        ensures
            r@ == self@,
    {
        ATabEntry {
            index_type: self.index_type.clone(),
            element_type: self.element_type.clone(),
            element_ref: self.element_ref,
            low_bound: self.low_bound,
            high_bound: self.high_bound,
            element_size: self.element_size,
            total_size: self.total_size,
        }
    }
}

/// The three tables and the stack of open blocks.
#[derive(Debug)]
pub struct SymbolTable {
    pub tab: Vec<TabEntry>,
    pub btab: Vec<BTabEntry>,
    pub atab: Vec<ATabEntry>,
    /// The open blocks, outermost first. Its length less one is the current
    /// lexical level.
    pub display: Vec<usize>,
}

/// The symbol table as the contracts see it.
pub struct TableView {
    pub tab: Seq<TabEntryView>,
    pub btab: Seq<BTabEntry>,
    pub atab: Seq<ATabEntryView>,
    pub display: Seq<usize>,
}

/// The views of the identifier records, in order.
pub open spec fn entry_views(tab: Seq<TabEntry>) -> Seq<TabEntryView> {
    Seq::new(tab.len(), |i: int| tab[i]@)
}

/// The views of the array records, in order.
pub open spec fn array_views(atab: Seq<ATabEntry>) -> Seq<ATabEntryView> {
    Seq::new(atab.len(), |i: int| atab[i]@)
}

impl View for SymbolTable {
    type V = TableView;

    open spec fn view(&self) -> TableView {
        TableView {
            tab: entry_views(self.tab@),
            btab: self.btab@,
            atab: array_views(self.atab@),
            display: self.display@,
        }
    }
}

/// The reserved words and predefined procedures, in the order of their
/// records.
pub open spec fn reserved_name(i: int) -> Seq<char> {
    if i == 0 {
        "dan"@
    } else if i == 1 {
        "larik"@
    } else if i == 2 {
        "mulai"@
    } else if i == 3 {
        "kasus"@
    } else if i == 4 {
        "konstanta"@
    } else if i == 5 {
        "bagi"@
    } else if i == 6 {
        "turun_ke"@
    } else if i == 7 {
        "lakukan"@
    } else if i == 8 {
        "selain_itu"@
    } else if i == 9 {
        "selesai"@
    } else if i == 10 {
        "untuk"@
    } else if i == 11 {
        "fungsi"@
    } else if i == 12 {
        "jika"@
    } else if i == 13 {
        "mod"@
    } else if i == 14 {
        "tidak"@
    } else if i == 15 {
        "dari"@
    } else if i == 16 {
        "atau"@
    } else if i == 17 {
        "prosedur"@
    } else if i == 18 {
        "program"@
    } else if i == 19 {
        "rekaman"@
    } else if i == 20 {
        "ulangi"@
    } else if i == 21 {
        "string"@
    } else if i == 22 {
        "maka"@
    } else if i == 23 {
        "ke"@
    } else if i == 24 {
        "tipe"@
    } else if i == 25 {
        "sampai"@
    } else if i == 26 {
        "variabel"@
    } else if i == 27 {
        "selama"@
    } else if i == 28 {
        "padat"@
    } else if i == 29 {
        "writeln"@
    } else if i == 30 {
        "write"@
    } else if i == 31 {
        "readln"@
    } else {
        "read"@
    }
}

/// The record that a new table holds at index `i`: a reserved word is entered
/// as a type of unknown shape (`string` as the string type), a predefined
/// procedure as a procedure, all at level 0 with their index for an address.
pub open spec fn reserved_entry(i: int) -> TabEntryView {
    TabEntryView {
        name: reserved_name(i),
        link: None,
        obj: if i < 29 {
            ObjectKind::Type
        } else {
            ObjectKind::Procedure
        },
        data_type: if i == 21 {
            DataTypeView::String
        } else if i < 29 {
            DataTypeView::Unknown
        } else {
            DataTypeView::Void
        },
        ref_index: None,
        normal: true,
        level: 0,
        address: i as usize,
    }
}

/// A block that holds nothing yet.
pub open spec fn empty_block() -> BTabEntry {
    BTabEntry { last: 0, last_par: 0, param_size: 0, var_size: 0 }
}

/// The table before any declaration: the reserved records, the global block,
/// no array type, and the global block open.
pub open spec fn initial_table() -> TableView {
    TableView {
        tab: Seq::new(RESERVED as nat, |i: int| reserved_entry(i)),
        btab: seq![empty_block()],
        atab: Seq::empty(),
        display: seq![0usize],
    }
}

/// Follows a chain from `start` towards older identifiers and gives the first
/// that has the name. Index 0 ends a chain, and so does a link that does not
/// lead to an older identifier.
pub open spec fn chain_find(tab: Seq<TabEntryView>, start: usize, name: Seq<char>) -> Option<usize>
    decreases start,
{
    if start == 0 || start >= tab.len() {
        None
    } else if tab[start as int].name == name {
        Some(start)
    } else {
        match tab[start as int].link {
            Some(next) => if next < start {
                chain_find(tab, next, name)
            } else {
                None
            },
            None => None,
        }
    }
}

/// The first index in `from..to` whose record has the name and, where
/// `global_only` is set, lies at level 0.
pub open spec fn first_match(
    tab: Seq<TabEntryView>,
    from: int,
    to: int,
    name: Seq<char>,
    global_only: bool,
) -> Option<usize>
    decreases to - from,
{
    if from < 0 || from >= to || from >= tab.len() || from > usize::MAX {
        None
    } else if tab[from].name == name && (!global_only || tab[from].level == 0) {
        Some(from as usize)
    } else {
        first_match(tab, from + 1, to, name, global_only)
    }
}

/// Whether the link of the record at index `i` leads to an older record, or
/// nowhere.
pub open spec fn links_back(entry: TabEntryView, i: int) -> bool {
    match entry.link {
        Some(j) => j < i,
        None => true,
    }
}

impl TableView {
    /// The current lexical level: the depth of the stack of open blocks, less
    /// one.
    pub open spec fn current_level(self) -> usize {
        if self.display.len() == 0 {
            0
        } else {
            (self.display.len() - 1) as usize
        }
    }

    /// The innermost open block.
    pub open spec fn current_block(self) -> usize {
        if self.display.len() == 0 {
            0
        } else {
            self.display.last()
        }
    }

    /// Every number in the table points where it should: the reserved records
    /// are there, a block is open, every open block exists, every block's
    /// last identifier exists, and every link leads to an older identifier.
    pub open spec fn well_formed(self) -> bool {
        &&& self.tab.len() >= RESERVED
        &&& self.display.len() >= 1
        &&& forall|i: int| 0 <= i < self.display.len() ==> (#[trigger] self.display[i]) < self.btab.len()
        &&& forall|b: int| 0 <= b < self.btab.len() ==> (#[trigger] self.btab[b]).last < self.tab.len()
        &&& forall|i: int| 0 <= i < self.tab.len() ==> links_back(#[trigger] self.tab[i], i)
    }

    /// The table after a new block was allotted and opened. The new block's
    /// index is the old length of `btab`.
    #[verifier::opaque]
    pub open spec fn enter_block(self) -> TableView {
        TableView {
            btab: self.btab.push(empty_block()),
            display: self.display.push(self.btab.len() as usize),
            ..self
        }
    }

    /// The table after an existing block was opened again.
    #[verifier::opaque]
    pub open spec fn reenter_block(self, block: usize) -> TableView {
        TableView { display: self.display.push(block), ..self }
    }

    /// The table after the innermost block was closed. The global block stays
    /// open, and the closed block's record stays in `btab`.
    #[verifier::opaque]
    pub open spec fn exit_block(self) -> TableView {
        if self.display.len() > 1 {
            TableView { display: self.display.drop_last(), ..self }
        } else {
            self
        }
    }

    /// The link that a new identifier of `block` gets: the identifier that
    /// was declared last in that block, if there is one.
    pub open spec fn link_in(self, block: usize) -> Option<usize> {
        if block < self.btab.len() && 0 < self.btab[block as int].last < self.tab.len() {
            Some(self.btab[block as int].last)
        } else {
            None
        }
    }

    /// The table after an identifier was declared in the innermost open
    /// block: its record is appended with the link set, and the block points
    /// at it. Its index is the old length of `tab`.
    #[verifier::opaque]
    pub open spec fn insert(self, entry: TabEntryView) -> TableView {
        let block = self.current_block();
        let linked = TabEntryView { link: self.link_in(block), ..entry };
        TableView {
            tab: self.tab.push(linked),
            btab: if block < self.btab.len() {
                self.btab.update(
                    block as int,
                    BTabEntry { last: self.tab.len() as usize, ..self.btab[block as int] },
                )
            } else {
                self.btab
            },
            ..self
        }
    }

    /// The table after an identifier was added at the global level behind
    /// the back of the open blocks: its record is appended with level 0 and a
    /// link into the global block, whose own record is left as it is. Its
    /// index is the old length of `tab`.
    #[verifier::opaque]
    pub open spec fn insert_at_global(self, entry: TabEntryView) -> TableView {
        let linked = TabEntryView { link: self.link_in(0), level: 0, ..entry };
        TableView { tab: self.tab.push(linked), ..self }
    }

    /// The table after an array type was registered. Its index is the old
    /// length of `atab`.
    #[verifier::opaque]
    pub open spec fn insert_array(self, entry: ATabEntryView) -> TableView {
        TableView { atab: self.atab.push(entry), ..self }
    }

    /// The table after the innermost open block's variables grew by `size`.
    /// The counter stops at the largest number it can hold.
    #[verifier::opaque]
    pub open spec fn add_var_size(self, size: usize) -> TableView {
        let block = self.current_block();
        if block < self.btab.len() {
            let old_size = self.btab[block as int].var_size;
            let new_size = if old_size + size > usize::MAX {
                usize::MAX
            } else {
                (old_size + size) as usize
            };
            TableView {
                btab: self.btab.update(
                    block as int,
                    BTabEntry { var_size: new_size, ..self.btab[block as int] },
                ),
                ..self
            }
        } else {
            self
        }
    }

    /// The identifier of the given block that has the name and was declared
    /// last.
    pub open spec fn block_find(self, block: usize, name: Seq<char>) -> Option<usize> {
        if block < self.btab.len() {
            chain_find(self.tab, self.btab[block as int].last, name)
        } else {
            None
        }
    }

    /// Searches the open blocks from the given level outwards.
    pub open spec fn scope_find(self, level: int, name: Seq<char>) -> Option<usize>
        decreases level + 1,
    {
        if level < 0 || level >= self.display.len() {
            None
        } else {
            match self.block_find(self.display[level], name) {
                Some(i) => Some(i),
                None => self.scope_find(level - 1, name),
            }
        }
    }

    /// What a name resolves to: the open blocks are searched from the
    /// innermost outwards, then the reserved records, then every identifier
    /// of level 0 whichever block it is in.
    #[verifier::opaque]
    pub open spec fn lookup(self, name: Seq<char>) -> Option<usize> {
        match self.scope_find(self.display.len() - 1, name) {
            Some(i) => Some(i),
            None => match first_match(self.tab, 0, RESERVED as int, name, false) {
                Some(i) => Some(i),
                None => first_match(self.tab, RESERVED as int, self.tab.len() as int, name, true),
            },
        }
    }

    /// What a name resolves to in the innermost open block alone.
    #[verifier::opaque]
    pub open spec fn lookup_current_scope(self, name: Seq<char>) -> Option<usize> {
        self.block_find(self.current_block(), name)
    }
}

/// Whether a name is one of the predefined procedures or boolean constants.
pub open spec fn builtin_name(name: Seq<char>) -> bool {
    name == "writeln"@ || name == "write"@ || name == "readln"@ || name == "read"@ || name
        == "true"@ || name == "false"@
}

fn reserved_word(i: usize) -> (r: &'static str)
    requires
        i < RESERVED,
    ensures
        r@ == reserved_name(i as int),
{
    if i == 0 {
        "dan"
    } else if i == 1 {
        "larik"
    } else if i == 2 {
        "mulai"
    } else if i == 3 {
        "kasus"
    } else if i == 4 {
        "konstanta"
    } else if i == 5 {
        "bagi"
    } else if i == 6 {
        "turun_ke"
    } else if i == 7 {
        "lakukan"
    } else if i == 8 {
        "selain_itu"
    } else if i == 9 {
        "selesai"
    } else if i == 10 {
        "untuk"
    } else if i == 11 {
        "fungsi"
    } else if i == 12 {
        "jika"
    } else if i == 13 {
        "mod"
    } else if i == 14 {
        "tidak"
    } else if i == 15 {
        "dari"
    } else if i == 16 {
        "atau"
    } else if i == 17 {
        "prosedur"
    } else if i == 18 {
        "program"
    } else if i == 19 {
        "rekaman"
    } else if i == 20 {
        "ulangi"
    } else if i == 21 {
        "string"
    } else if i == 22 {
        "maka"
    } else if i == 23 {
        "ke"
    } else if i == 24 {
        "tipe"
    } else if i == 25 {
        "sampai"
    } else if i == 26 {
        "variabel"
    } else if i == 27 {
        "selama"
    } else if i == 28 {
        "padat"
    } else if i == 29 {
        "writeln"
    } else if i == 30 {
        "write"
    } else if i == 31 {
        "readln"
    } else {
        "read"
    }
}

impl SymbolTable {
    /// A table that holds the reserved words and the predefined procedures,
    /// with the global block open.
    pub fn new() -> (r: SymbolTable)
        ensures
            r@ == initial_table(),
            r@.well_formed(),
    {
        let mut tab: Vec<TabEntry> = Vec::new();
        let mut i: usize = 0;
        while i < RESERVED
            invariant
                i <= RESERVED,
                tab@.len() == i,
                forall|j: int| 0 <= j < i ==> (#[trigger] tab@[j])@ == reserved_entry(j),
            decreases RESERVED - i,
        {
            let obj = if i < 29 {
                ObjectKind::Type
            } else {
                ObjectKind::Procedure
            };
            let data_type = if i == 21 {
                DataType::String
            } else if i < 29 {
                DataType::Unknown
            } else {
                DataType::Void
            };
            tab.push(
                TabEntry {
                    name: reserved_word(i).to_string(),
                    link: None,
                    obj,
                    data_type,
                    ref_index: None,
                    normal: true,
                    level: 0,
                    address: i,
                },
            );
            i = i + 1;
        }
        assert(entry_views(tab@) =~= Seq::new(RESERVED as nat, |j: int| reserved_entry(j)));
        let mut btab: Vec<BTabEntry> = Vec::new();
        btab.push(BTabEntry { last: 0, last_par: 0, param_size: 0, var_size: 0 });
        let mut display: Vec<usize> = Vec::new();
        display.push(0);
        let r = SymbolTable { tab, btab, atab: Vec::new(), display };
        assert(r@.atab =~= Seq::empty());
        assert(r@.btab =~= seq![empty_block()]);
        assert(r@.display =~= seq![0usize]);
        r
    }

    /// Allots a new block, opens it and returns its index.
    pub fn enter_block(&mut self) -> (block: usize)
        ensures
            final(self)@ == old(self)@.enter_block(),
            block == old(self)@.btab.len(),
            old(self)@.well_formed() ==> final(self)@.well_formed(),
    {
        proof {
            reveal(TableView::enter_block);
        }
        let block = self.btab.len();
        self.btab.push(BTabEntry { last: 0, last_par: 0, param_size: 0, var_size: 0 });
        self.display.push(block);
        proof {
            if old(self)@.well_formed() {
                lemma_enter_block_well_formed(old(self)@);
            }
        }
        block
    }

    /// Opens an existing block again, on top of the stack of open blocks.
    pub fn reenter_block(&mut self, block: usize)
        ensures
            final(self)@ == old(self)@.reenter_block(block),
            old(self)@.well_formed() && block < old(self)@.btab.len()
                ==> final(self)@.well_formed(),
    {
        self.display.push(block);
        proof {
            reveal(TableView::reenter_block);
            if old(self)@.well_formed() && block < old(self)@.btab.len() {
                lemma_reenter_block_well_formed(old(self)@, block);
            }
        }
    }

    /// Closes the innermost block. Its record stays in `btab`, and the global
    /// block is never closed.
    pub fn exit_block(&mut self)
        ensures
            final(self)@ == old(self)@.exit_block(),
            old(self)@.well_formed() ==> final(self)@.well_formed(),
    {
        proof {
            reveal(TableView::exit_block);
        }
        if self.display.len() > 1 {
            self.display.pop();
        }
    }

    /// The current lexical level: 0 in the global block, one more for each
    /// block opened inside it.
    pub fn current_level(&self) -> (level: usize)
        ensures
            level == self@.current_level(),
    {
        if self.display.len() == 0 {
            0
        } else {
            self.display.len() - 1
        }
    }

    /// The index of the innermost open block.
    pub fn current_block(&self) -> (block: usize)
        ensures
            block == self@.current_block(),
    {
        if self.display.len() == 0 {
            0
        } else {
            self.display[self.display.len() - 1]
        }
    }

    fn link_in(&self, block: usize) -> (link: Option<usize>)
        ensures
            link == self@.link_in(block),
    {
        if block < self.btab.len() {
            let last = self.btab[block].last;
            if 0 < last && last < self.tab.len() {
                Some(last)
            } else {
                None
            }
        } else {
            None
        }
    }

    /// Declares an identifier in the innermost open block and returns its
    /// index. The record's own `link` is not read: the link is set to the
    /// identifier that was declared last in the block.
    pub fn insert(&mut self, entry: TabEntry) -> (index: usize)
        ensures
            final(self)@ == old(self)@.insert(entry@),
            index == old(self)@.tab.len(),
            old(self)@.well_formed() ==> final(self)@.well_formed(),
    {
        let index = self.tab.len();
        let block = self.current_block();
        let mut entry = entry;
        entry.link = self.link_in(block);
        self.tab.push(entry);
        if block < self.btab.len() {
            let record = self.btab[block];
            self.btab.set(block, BTabEntry { last: index, ..record });
        }
        proof {
            reveal(TableView::insert);
            assert(final(self)@.tab =~= old(self)@.insert(entry@).tab);
            if old(self)@.well_formed() {
                lemma_insert_well_formed(old(self)@, entry@);
            }
        }
        index
    }

    fn find_in_chain(&self, start: usize, name: &str) -> (r: Option<usize>)
        ensures
            r == chain_find(self@.tab, start, name@),
    {
        let mut current = start;
        while current > 0 && current < self.tab.len()
            invariant
                chain_find(self@.tab, start, name@) == chain_find(self@.tab, current, name@),
            decreases current,
        {
            if same_text(self.tab[current].name.as_str(), name) {
                return Some(current);
            }
            match self.tab[current].link {
                Some(next) => {
                    if next < current {
                        current = next;
                    } else {
                        return None;
                    }
                },
                None => {
                    return None;
                },
            }
        }
        None
    }

    fn find_in_block(&self, block: usize, name: &str) -> (r: Option<usize>)
        ensures
            r == self@.block_find(block, name@),
    {
        if block < self.btab.len() {
            self.find_in_chain(self.btab[block].last, name)
        } else {
            None
        }
    }

    fn scan(&self, from: usize, to: usize, name: &str, global_only: bool) -> (r: Option<usize>)
        ensures
            r == first_match(self@.tab, from as int, to as int, name@, global_only),
    {
        let mut i = from;
        while i < to && i < self.tab.len()
            invariant
                first_match(self@.tab, from as int, to as int, name@, global_only) == first_match(
                    self@.tab,
                    i as int,
                    to as int,
                    name@,
                    global_only,
                ),
            decreases to - i,
        {
            if same_text(self.tab[i].name.as_str(), name) && (!global_only || self.tab[i].level
                == 0) {
                return Some(i);
            }
            i = i + 1;
        }
        None
    }

    /// Resolves a name: the open blocks from the innermost outwards, then
    /// the reserved records, then every identifier of level 0.
    pub fn lookup(&self, name: &str) -> (r: Option<usize>)
        ensures
            r == self@.lookup(name@),
            r matches Some(i) ==> i < self.tab.len(),
    {
        proof {
            reveal(TableView::lookup);
        }
        let mut level = self.display.len();
        while level > 0
            invariant
                level <= self.display.len(),
                self@.scope_find(self.display.len() - 1, name@) == self@.scope_find(
                    level - 1,
                    name@,
                ),
            decreases level,
        {
            level = level - 1;
            let found = self.find_in_block(self.display[level], name);
            if found.is_some() {
                proof {
                    reveal(TableView::lookup);
                    lemma_lookup_in_range(self@, name@);
                }
                return found;
            }
        }
        proof {
            lemma_lookup_in_range(self@, name@);
        }
        let found = self.scan(0, RESERVED, name, false);
        if found.is_some() {
            return found;
        }
        self.scan(RESERVED, self.tab.len(), name, true)
    }

    /// Adds an identifier at the global level without touching the record of
    /// the global block, and returns its index. The name is then found by
    /// `lookup` from any block, as every identifier of level 0 is.
    pub fn insert_at_global(&mut self, entry: TabEntry) -> (index: usize)
        ensures
            final(self)@ == old(self)@.insert_at_global(entry@),
            index == old(self)@.tab.len(),
            old(self)@.well_formed() ==> final(self)@.well_formed(),
    {
        let index = self.tab.len();
        let mut entry = entry;
        entry.link = self.link_in(0);
        entry.level = 0;
        self.tab.push(entry);
        proof {
            reveal(TableView::insert_at_global);
            assert(final(self)@.tab =~= old(self)@.insert_at_global(entry@).tab);
            if old(self)@.well_formed() {
                lemma_insert_at_global_well_formed(old(self)@, entry@);
            }
        }
        index
    }

    /// Whether a name is one of the predefined procedures or boolean
    /// constants.
    pub fn is_builtin(&self, name: &str) -> (r: bool)
        ensures
            r == builtin_name(name@),
    {
        same_text(name, "writeln") || same_text(name, "write") || same_text(name, "readln")
            || same_text(name, "read") || same_text(name, "true") || same_text(name, "false")
    }

    /// Resolves a name in the innermost open block alone, as a check for a
    /// second declaration needs it.
    pub fn lookup_current_scope(&self, name: &str) -> (r: Option<usize>)
        ensures
            r == self@.lookup_current_scope(name@),
            r matches Some(i) ==> i < self.tab.len(),
    {
        proof {
            reveal(TableView::lookup_current_scope);
            lemma_chain_find_in_range(
                self@.tab,
                if self@.current_block() < self@.btab.len() {
                    self@.btab[self@.current_block() as int].last
                } else {
                    0
                },
                name@,
            );
        }
        let block = self.current_block();
        self.find_in_block(block, name)
    }

    /// Registers an array type and returns its index.
    pub fn insert_array(&mut self, entry: ATabEntry) -> (index: usize)
        ensures
            final(self)@ == old(self)@.insert_array(entry@),
            index == old(self)@.atab.len(),
            old(self)@.well_formed() ==> final(self)@.well_formed(),
    {
        let index = self.atab.len();
        self.atab.push(entry);
        proof {
            reveal(TableView::insert_array);
        }
        assert(final(self)@.atab =~= old(self)@.atab.push(entry@));
        index
    }

    /// Adds to the size of the variables of the innermost open block.
    pub fn add_var_size(&mut self, size: usize)
        ensures
            final(self)@ == old(self)@.add_var_size(size),
            old(self)@.well_formed() ==> final(self)@.well_formed(),
    {
        proof {
            reveal(TableView::add_var_size);
        }
        let block = self.current_block();
        if block < self.btab.len() {
            let record = self.btab[block];
            let new_size = if record.var_size > usize::MAX - size {
                usize::MAX
            } else {
                record.var_size + size
            };
            self.btab.set(block, BTabEntry { var_size: new_size, ..record });
        }
    }
}

/// A chain only ever yields an index inside the table.
pub proof fn lemma_chain_find_in_range(tab: Seq<TabEntryView>, start: usize, name: Seq<char>)
    ensures
        chain_find(tab, start, name) matches Some(i) ==> 0 < i < tab.len() && tab[i as int].name
            == name,
    decreases start,
{
    if start == 0 || start >= tab.len() {
    } else if tab[start as int].name == name {
    } else {
        match tab[start as int].link {
            Some(next) => {
                if next < start {
                    lemma_chain_find_in_range(tab, next, name);
                }
            },
            None => {},
        }
    }
}

/// A scan only ever yields an index inside its range and inside the table,
/// and the record there has the name.
pub proof fn lemma_first_match_in_range(
    tab: Seq<TabEntryView>,
    from: int,
    to: int,
    name: Seq<char>,
    global_only: bool,
)
    ensures
        first_match(tab, from, to, name, global_only) matches Some(i) ==> from <= i < to && i
            < tab.len() && tab[i as int].name == name,
    decreases to - from,
{
    if from < 0 || from >= to || from >= tab.len() || from > usize::MAX {
    } else if tab[from].name == name && (!global_only || tab[from].level == 0) {
    } else {
        lemma_first_match_in_range(tab, from + 1, to, name, global_only);
    }
}

/// A search of the open blocks only ever yields an index inside the table.
pub proof fn lemma_scope_find_in_range(t: TableView, level: int, name: Seq<char>)
    ensures
        t.scope_find(level, name) matches Some(i) ==> i < t.tab.len() && t.tab[i as int].name
            == name,
    decreases level + 1,
{
    if level < 0 || level >= t.display.len() {
    } else {
        let block = t.display[level];
        if block < t.btab.len() {
            lemma_chain_find_in_range(t.tab, t.btab[block as int].last, name);
        }
        lemma_scope_find_in_range(t, level - 1, name);
    }
}

/// Whatever a name resolves to is a record of the table, and that record
/// has the name.
pub proof fn lemma_lookup_in_range(t: TableView, name: Seq<char>)
    ensures
        t.lookup(name) matches Some(i) ==> i < t.tab.len() && t.tab[i as int].name == name,
{
    reveal(TableView::lookup);
    lemma_scope_find_in_range(t, t.display.len() - 1, name);
    lemma_first_match_in_range(t.tab, 0, RESERVED as int, name, false);
    lemma_first_match_in_range(t.tab, RESERVED as int, t.tab.len() as int, name, true);
}

/// Opening a new block keeps the table well formed.
pub proof fn lemma_enter_block_well_formed(t: TableView)
    requires
        t.well_formed(),
    ensures
        t.enter_block().well_formed(),
{
    reveal(TableView::enter_block);
    let u = t.enter_block();
    assert forall|i: int| 0 <= i < u.display.len() implies (#[trigger] u.display[i])
        < u.btab.len() by {
        if i < t.display.len() {
            assert(u.display[i] == t.display[i]);
        }
    }
    assert forall|b: int| 0 <= b < u.btab.len() implies (#[trigger] u.btab[b]).last
        < u.tab.len() by {
        if b < t.btab.len() {
            assert(u.btab[b] == t.btab[b]);
        }
    }
}

/// Opening an existing block again keeps the table well formed.
pub proof fn lemma_reenter_block_well_formed(t: TableView, block: usize)
    requires
        t.well_formed(),
        block < t.btab.len(),
    ensures
        t.reenter_block(block).well_formed(),
{
    reveal(TableView::reenter_block);
    let u = t.reenter_block(block);
    assert forall|i: int| 0 <= i < u.display.len() implies (#[trigger] u.display[i])
        < u.btab.len() by {
        if i < t.display.len() {
            assert(u.display[i] == t.display[i]);
        }
    }
}

/// Declaring an identifier keeps the table well formed.
pub proof fn lemma_insert_well_formed(t: TableView, entry: TabEntryView)
    requires
        t.well_formed(),
    ensures
        t.insert(entry).well_formed(),
{
    reveal(TableView::insert);
    let u = t.insert(entry);
    assert forall|b: int| 0 <= b < u.btab.len() implies (#[trigger] u.btab[b]).last
        < u.tab.len() by {
        if b != t.current_block() {
            assert(u.btab[b] == t.btab[b]);
        }
    }
    assert forall|i: int| 0 <= i < u.tab.len() implies links_back(#[trigger] u.tab[i], i) by {
        if i < t.tab.len() {
            assert(u.tab[i] == t.tab[i]);
        }
    }
}

/// Adding an identifier at the global level keeps the table well formed.
pub proof fn lemma_insert_at_global_well_formed(t: TableView, entry: TabEntryView)
    requires
        t.well_formed(),
    ensures
        t.insert_at_global(entry).well_formed(),
{
    reveal(TableView::insert_at_global);
    let u = t.insert_at_global(entry);
    assert forall|i: int| 0 <= i < u.tab.len() implies links_back(#[trigger] u.tab[i], i) by {
        if i < t.tab.len() {
            assert(u.tab[i] == t.tab[i]);
        }
    }
}

/// Whether `u` is `t` grown: the same blocks are open, every record of `t`
/// is still there unchanged, and every block of `t` still points at the same
/// last identifier.
pub open spec fn grown_from(u: TableView, t: TableView) -> bool {
    &&& u.display == t.display
    &&& t.tab.len() <= u.tab.len()
    &&& forall|i: int| 0 <= i < t.tab.len() ==> #[trigger] u.tab[i] == t.tab[i]
    &&& t.btab.len() <= u.btab.len()
    &&& forall|b: int| 0 <= b < t.btab.len() ==> (#[trigger] u.btab[b]).last == t.btab[b].last
}

proof fn lemma_chain_find_grown(
    old_tab: Seq<TabEntryView>,
    new_tab: Seq<TabEntryView>,
    start: usize,
    name: Seq<char>,
)
    requires
        old_tab.len() <= new_tab.len(),
        forall|i: int| 0 <= i < old_tab.len() ==> #[trigger] new_tab[i] == old_tab[i],
        start < old_tab.len(),
    ensures
        chain_find(new_tab, start, name) == chain_find(old_tab, start, name),
    decreases start,
{
    if start == 0 {
    } else {
        assert(new_tab[start as int] == old_tab[start as int]);
        if old_tab[start as int].name == name {
        } else {
            match old_tab[start as int].link {
                Some(next) => {
                    if next < start {
                        lemma_chain_find_grown(old_tab, new_tab, next, name);
                    }
                },
                None => {},
            }
        }
    }
}

proof fn lemma_scope_find_grown(t: TableView, u: TableView, level: int, name: Seq<char>)
    requires
        t.well_formed(),
        grown_from(u, t),
    ensures
        u.scope_find(level, name) == t.scope_find(level, name),
    decreases level + 1,
{
    if level < 0 || level >= t.display.len() {
    } else {
        let block = t.display[level];
        assert(block < t.btab.len());
        assert(u.btab[block as int].last == t.btab[block as int].last);
        assert(t.btab[block as int].last < t.tab.len());
        lemma_chain_find_grown(t.tab, u.tab, t.btab[block as int].last, name);
        lemma_scope_find_grown(t, u, level - 1, name);
    }
}

proof fn lemma_first_match_grown(
    old_tab: Seq<TabEntryView>,
    new_tab: Seq<TabEntryView>,
    from: int,
    old_to: int,
    new_to: int,
    name: Seq<char>,
    global_only: bool,
)
    requires
        old_tab.len() <= new_tab.len(),
        forall|i: int| 0 <= i < old_tab.len() ==> #[trigger] new_tab[i] == old_tab[i],
        old_to <= new_to,
        old_to <= old_tab.len(),
    ensures
        first_match(old_tab, from, old_to, name, global_only) is Some ==> first_match(
            new_tab,
            from,
            new_to,
            name,
            global_only,
        ) == first_match(old_tab, from, old_to, name, global_only),
    decreases old_to - from,
{
    if from < 0 || from >= old_to || from >= old_tab.len() || from > usize::MAX {
    } else {
        assert(new_tab[from] == old_tab[from]);
        if old_tab[from].name == name && (!global_only || old_tab[from].level == 0) {
        } else {
            lemma_first_match_grown(old_tab, new_tab, from + 1, old_to, new_to, name, global_only);
        }
    }
}

proof fn lemma_first_match_same_range(
    old_tab: Seq<TabEntryView>,
    new_tab: Seq<TabEntryView>,
    from: int,
    to: int,
    name: Seq<char>,
    global_only: bool,
)
    requires
        old_tab.len() <= new_tab.len(),
        forall|i: int| 0 <= i < old_tab.len() ==> #[trigger] new_tab[i] == old_tab[i],
        to <= old_tab.len(),
    ensures
        first_match(new_tab, from, to, name, global_only) == first_match(
            old_tab,
            from,
            to,
            name,
            global_only,
        ),
    decreases to - from,
{
    if from < 0 || from >= to || from >= old_tab.len() || from > usize::MAX {
    } else {
        assert(new_tab[from] == old_tab[from]);
        if old_tab[from].name == name && (!global_only || old_tab[from].level == 0) {
        } else {
            lemma_first_match_same_range(old_tab, new_tab, from + 1, to, name, global_only);
        }
    }
}

/// Growth does not hide a name. Where a name resolves in a table, it
/// resolves to the same identifier in any table grown from it: records added
/// to the tables, in blocks that are not open, change nothing that a search
/// of the open blocks can see.
pub proof fn law_lookup_survives_growth(t: TableView, u: TableView, name: Seq<char>)
    requires
        t.well_formed(),
        grown_from(u, t),
        t.lookup(name) is Some,
    ensures
        u.lookup(name) == t.lookup(name),
{
    reveal(TableView::lookup);
    lemma_scope_find_grown(t, u, t.display.len() - 1, name);
    lemma_first_match_same_range(t.tab, u.tab, 0, RESERVED as int, name, false);
    lemma_first_match_grown(
        t.tab,
        u.tab,
        RESERVED as int,
        t.tab.len() as int,
        u.tab.len() as int,
        name,
        true,
    );
}

/// A declaration is found at once. After an identifier was declared, its
/// name resolves to it, both in the innermost block alone and through all
/// open blocks.
pub proof fn law_declared_is_found(t: TableView, entry: TabEntryView)
    requires
        t.well_formed(),
        t.tab.len() <= usize::MAX,
    ensures
        t.insert(entry).lookup_current_scope(entry.name) == Some(t.tab.len() as usize),
        t.insert(entry).lookup(entry.name) == Some(t.tab.len() as usize),
{
    reveal(TableView::insert);
    reveal(TableView::lookup);
    reveal(TableView::lookup_current_scope);
    let u = t.insert(entry);
    let block = t.current_block();
    assert(block == t.display[t.display.len() - 1]);
    assert(block < t.btab.len());
    assert(u.btab[block as int].last == t.tab.len());
    assert(u.tab[t.tab.len() as int].name == entry.name);
    assert(chain_find(u.tab, t.tab.len() as usize, entry.name) == Some(t.tab.len() as usize));
    assert(u.display == t.display);
    assert(u.block_find(block, entry.name) == Some(t.tab.len() as usize));
    assert(u.scope_find(u.display.len() - 1, entry.name) == Some(t.tab.len() as usize));
}

/// A local shadows a global, and only inside its block. Where a name
/// resolves to some identifier and a new block then declares the same name,
/// the name resolves to the new identifier as long as that block is open, and
/// to the earlier one again once the block is closed.
pub proof fn law_local_shadows_global(t: TableView, local: TabEntryView)
    requires
        t.well_formed(),
        t.tab.len() <= usize::MAX,
        t.btab.len() <= usize::MAX,
        t.lookup(local.name) is Some,
    ensures
        t.enter_block().insert(local).lookup(local.name) == Some(t.tab.len() as usize),
        t.enter_block().insert(local).exit_block().lookup(local.name) == t.lookup(local.name),
        t.lookup(local.name) != Some(t.tab.len() as usize),
{
    reveal(TableView::insert);
    reveal(TableView::enter_block);
    reveal(TableView::exit_block);
    let opened = t.enter_block();
    lemma_enter_block_well_formed(t);
    law_declared_is_found(opened, local);
    let inner = opened.insert(local);
    let closed = inner.exit_block();
    assert(opened.display.len() > 1);
    assert(closed.display =~= t.display);
    assert(opened.current_block() == t.btab.len());
    assert forall|b: int| 0 <= b < t.btab.len() implies (#[trigger] closed.btab[b]).last
        == t.btab[b].last by {
        assert(opened.btab[b] == t.btab[b]);
    }
    law_lookup_survives_growth(t, closed, local.name);
    lemma_lookup_in_range(t, local.name);
}

/// Whether a row of records is still there, unchanged and in its place, at
/// the start of a longer row.
pub open spec fn kept<A>(before: Seq<A>, after: Seq<A>) -> bool {
    &&& before.len() <= after.len()
    &&& forall|i: int| 0 <= i < before.len() ==> #[trigger] after[i] == before[i]
}

/// Whether the tables have only grown: every identifier and every array
/// type is still there unchanged, and no block was dropped.
pub open spec fn tables_grown(before: TableView, after: TableView) -> bool {
    &&& kept(before.tab, after.tab)
    &&& kept(before.atab, after.atab)
    &&& before.btab.len() <= after.btab.len()
}

/// The tables only grow. No operation removes or changes an identifier or
/// an array type, and none drops a block: a block that was closed keeps its
/// record.
pub proof fn law_tables_only_grow(
    t: TableView,
    entry: TabEntryView,
    array: ATabEntryView,
    block: usize,
    size: usize,
)
    ensures
        tables_grown(t, t.insert(entry)),
        tables_grown(t, t.insert_at_global(entry)),
        tables_grown(t, t.insert_array(array)),
        tables_grown(t, t.enter_block()),
        tables_grown(t, t.reenter_block(block)),
        tables_grown(t, t.exit_block()),
        tables_grown(t, t.add_var_size(size)),
{
    reveal(TableView::insert);
    reveal(TableView::insert_at_global);
    reveal(TableView::insert_array);
    reveal(TableView::enter_block);
    reveal(TableView::reenter_block);
    reveal(TableView::exit_block);
    reveal(TableView::add_var_size);
}

/// The table stays well formed. Every operation leaves a well-formed table
/// well formed; opening a block again asks that the block exists.
pub proof fn law_tables_stay_well_formed(
    t: TableView,
    entry: TabEntryView,
    array: ATabEntryView,
    block: usize,
    size: usize,
)
    requires
        t.well_formed(),
    ensures
        t.insert(entry).well_formed(),
        t.insert_at_global(entry).well_formed(),
        t.insert_array(array).well_formed(),
        t.enter_block().well_formed(),
        block < t.btab.len() ==> t.reenter_block(block).well_formed(),
        t.exit_block().well_formed(),
        t.add_var_size(size).well_formed(),
{
    lemma_insert_well_formed(t, entry);
    lemma_insert_at_global_well_formed(t, entry);
    lemma_enter_block_well_formed(t);
    if block < t.btab.len() {
        lemma_reenter_block_well_formed(t, block);
    }
    reveal(TableView::insert_array);
    reveal(TableView::exit_block);
    reveal(TableView::add_var_size);
    let u = t.add_var_size(size);
    assert forall|b: int| 0 <= b < u.btab.len() implies (#[trigger] u.btab[b]).last
        < u.tab.len() by {
        if b != t.current_block() {
            assert(u.btab[b] == t.btab[b]);
        }
    }
    let v = t.exit_block();
    assert forall|i: int| 0 <= i < v.display.len() implies (#[trigger] v.display[i])
        < v.btab.len() by {
        assert(v.display[i] == t.display[i]);
    }
}

} // verus!
