//! The scoped symbol table: lexical scopes linked to the scope that encloses
//! each, and the named entries declared in them. A name resolves to its
//! nearest enclosing declaration.

use vstd::prelude::*;
use crate::address::{Address, AddressData};
use crate::typedast::{NodeType, SimpleType};

verus! {

/// What a name stands for.
#[derive(Debug)]
pub enum ConstructCategory {
    SimpleVar,
    ArrayVar,
    /// A function, with the types of its parameters and of its result.
    Function(Vec<NodeType>, NodeType),
    /// A procedure, with the types of its parameters.
    Procedure(Vec<NodeType>),
    TypeId,
    /// A built-in routine with argument rules of its own.
    Special,
    ProgramName,
}

/// A declared name.
#[derive(Debug)]
pub struct Entry {
    pub name: String,
    pub category: ConstructCategory,
    pub value: String,
    pub entry_type: NodeType,
    pub scope_number: i32,
    pub address: Address,
}

/// A lexical scope: its number, the number of the scope around it (-1 for
/// the outermost), and whether it closes off a subroutine body.
#[derive(Clone, Copy, Debug, PartialEq, Eq, Structural)]
pub struct Scope {
    pub scope_number: i32,
    pub enclosing_scope_number: i32,
    pub is_closed: bool,
}

/// A category as a mathematical value.
pub enum CategoryModel {
    SimpleVar,
    ArrayVar,
    Function(Seq<NodeType>, NodeType),
    Procedure(Seq<NodeType>),
    TypeId,
    Special,
    ProgramName,
}

/// An entry as a mathematical value.
pub struct EntryModel {
    pub name: Seq<char>,
    pub category: CategoryModel,
    pub value: Seq<char>,
    pub entry_type: NodeType,
    pub scope_number: i32,
    pub address: Address,
}

impl ConstructCategory {
    pub open spec fn view(&self) -> CategoryModel {
        match self {
            ConstructCategory::SimpleVar => CategoryModel::SimpleVar,
            ConstructCategory::ArrayVar => CategoryModel::ArrayVar,
            ConstructCategory::Function(params, out) => CategoryModel::Function(params@, *out),
            ConstructCategory::Procedure(params) => CategoryModel::Procedure(params@),
            ConstructCategory::TypeId => CategoryModel::TypeId,
            ConstructCategory::Special => CategoryModel::Special,
            ConstructCategory::ProgramName => CategoryModel::ProgramName,
        }
    }
}

impl Entry {
    pub open spec fn view(&self) -> EntryModel {
        EntryModel {
            name: self.name@,
            category: self.category@,
            value: self.value@,
            entry_type: self.entry_type,
            scope_number: self.scope_number,
            address: self.address,
        }
    }
}

/// The table as a mathematical value: the stack of active scopes, innermost
/// last; the record of every scope, at the index that is its number; and
/// for every scope the entries declared in it, by name.
pub struct TableModel {
    pub stack: Seq<i32>,
    pub scopes: Seq<Scope>,
    pub entries: Seq<Map<Seq<char>, EntryModel>>,
}

impl TableModel {
    /// Scope numbers are indices, every scope but the outermost lies inside
    /// one with a smaller number, every active scope exists, and every entry
    /// is filed under its own name.
    pub open spec fn wf(self) -> bool {
        &&& self.scopes.len() == self.entries.len()
        &&& self.scopes.len() <= i32::MAX
        &&& forall|i: int|
            0 <= i < self.scopes.len() ==> {
                &&& (#[trigger] self.scopes[i]).scope_number == i
                &&& self.scopes[i].enclosing_scope_number < i
            }
        &&& forall|k: int| 0 <= k < self.stack.len() ==> 0 <= #[trigger] self.stack[k] < self.scopes.len()
        &&& forall|i: int, name: Seq<char>|
            0 <= i < self.entries.len() && #[trigger] self.entries[i].contains_key(name)
                ==> self.entries[i][name].name == name
    }

    /// The number of the active scope; 0 when none is active.
    pub open spec fn current(self) -> i32 {
        if self.stack.len() > 0 {
            self.stack.last()
        } else {
            0
        }
    }

    /// The number that the next new scope gets.
    pub open spec fn next_scope(self) -> int {
        self.scopes.len() as int
    }

    /// A new scope inside the active one, made the active scope. Nothing
    /// changes when no scope is active.
    pub open spec fn child(self, is_closed: bool) -> TableModel {
        if self.stack.len() > 0 {
            let number = self.scopes.len() as i32;
            TableModel {
                stack: self.stack.push(number),
                scopes: self.scopes.push(
                    Scope {
                        scope_number: number,
                        enclosing_scope_number: self.stack.last(),
                        is_closed,
                    },
                ),
                entries: self.entries.push(Map::empty()),
            }
        } else {
            self
        }
    }

    /// An existing scope made the active one again, with its record replaced
    /// by the one given.
    pub open spec fn enter(self, scope: Scope) -> TableModel {
        TableModel {
            stack: self.stack.push(scope.scope_number),
            scopes: self.scopes.update(scope.scope_number as int, scope),
            entries: self.entries,
        }
    }

    /// The active scope left. Its entries stay stored.
    pub open spec fn exit(self) -> TableModel {
        if self.stack.len() > 0 {
            TableModel { stack: self.stack.drop_last(), ..self }
        } else {
            self
        }
    }

    /// The entry filed in the scope it names, in place of any entry of the
    /// same name there. Nothing changes when that scope does not exist.
    pub open spec fn add(self, entry: EntryModel) -> TableModel {
        if 0 <= entry.scope_number < self.entries.len() {
            TableModel {
                entries: self.entries.update(
                    entry.scope_number as int,
                    self.entries[entry.scope_number as int].insert(entry.name, entry),
                ),
                ..self
            }
        } else {
            self
        }
    }

    /// The entry of that name declared in the scope itself.
    pub open spec fn find_in(self, scope: int, name: Seq<char>) -> Option<EntryModel> {
        if 0 <= scope < self.entries.len() && self.entries[scope].contains_key(name) {
            Some(self.entries[scope][name])
        } else {
            None
        }
    }

    /// The entry of that name declared in the scope or, failing that, in the
    /// nearest scope around it that declares one.
    pub open spec fn resolve(self, scope: int, name: Seq<char>) -> Option<EntryModel>
        decreases scope,
    {
        if 0 <= scope < self.scopes.len() {
            match self.find_in(scope, name) {
                Some(entry) => Some(entry),
                None => {
                    let parent = self.scopes[scope].enclosing_scope_number as int;
                    if 0 <= parent < scope {
                        self.resolve(parent, name)
                    } else {
                        None
                    }
                },
            }
        } else {
            None
        }
    }

    /// What a name means in the active scope.
    pub open spec fn lookup(self, name: Seq<char>) -> Option<EntryModel> {
        if self.stack.len() > 0 {
            self.resolve(self.stack.last() as int, name)
        } else {
            None
        }
    }

    /// Whether the active scope itself declares the name.
    pub open spec fn declared_here(self, name: Seq<char>) -> bool {
        self.stack.len() > 0 && self.find_in(self.stack.last() as int, name).is_some()
    }
}

impl TableModel {
    /// Opening a scope keeps the table well-formed.
    pub proof fn lemma_child_wf(self, is_closed: bool)
        requires
            self.wf(),
            self.next_scope() < i32::MAX,
        ensures
            self.child(is_closed).wf(),
    {
        let after = self.child(is_closed);
        if self.stack.len() > 0 {
            assert forall|i: int| 0 <= i < after.scopes.len() implies {
                &&& (#[trigger] after.scopes[i]).scope_number == i
                &&& after.scopes[i].enclosing_scope_number < i
            } by {
                if i < self.scopes.len() {
                    assert(after.scopes[i] == self.scopes[i]);
                } else {
                    assert(0 <= self.stack[self.stack.len() - 1] < self.scopes.len());
                }
            }
            assert forall|k: int| 0 <= k < after.stack.len() implies 0 <= #[trigger] after.stack[k]
                < after.scopes.len() by {
                if k < self.stack.len() {
                    assert(after.stack[k] == self.stack[k]);
                }
            }
            assert forall|i: int, name: Seq<char>|
                0 <= i < after.entries.len() && #[trigger] after.entries[i].contains_key(
                    name,
                ) implies after.entries[i][name].name == name by {
                if i < self.entries.len() {
                    assert(after.entries[i] == self.entries[i]);
                    assert(self.entries[i].contains_key(name));
                }
            }
        }
    }

    /// Entering a scope again keeps the table well-formed.
    pub proof fn lemma_enter_wf(self, scope: Scope)
        requires
            self.wf(),
            0 <= scope.scope_number < self.next_scope(),
            scope.enclosing_scope_number < scope.scope_number,
        ensures
            self.enter(scope).wf(),
    {
        let after = self.enter(scope);
        assert forall|i: int| 0 <= i < after.scopes.len() implies {
            &&& (#[trigger] after.scopes[i]).scope_number == i
            &&& after.scopes[i].enclosing_scope_number < i
        } by {
            if i != scope.scope_number {
                assert(after.scopes[i] == self.scopes[i]);
            }
        }
        assert forall|k: int| 0 <= k < after.stack.len() implies 0 <= #[trigger] after.stack[k]
            < after.scopes.len() by {
            if k < self.stack.len() {
                assert(after.stack[k] == self.stack[k]);
            }
        }
    }

    /// Leaving a scope keeps the table well-formed.
    pub proof fn lemma_exit_wf(self)
        requires
            self.wf(),
        ensures
            self.exit().wf(),
    {
        let after = self.exit();
        assert forall|k: int| 0 <= k < after.stack.len() implies 0 <= #[trigger] after.stack[k]
            < after.scopes.len() by {
            assert(after.stack[k] == self.stack[k]);
        }
    }

    /// Filing an entry keeps the table well-formed.
    pub proof fn lemma_add_wf(self, entry: EntryModel)
        requires
            self.wf(),
        ensures
            self.add(entry).wf(),
    {
        let after = self.add(entry);
        assert forall|i: int, name: Seq<char>|
            0 <= i < after.entries.len() && #[trigger] after.entries[i].contains_key(
                name,
            ) implies after.entries[i][name].name == name by {
            if 0 <= entry.scope_number < self.entries.len() {
                if i == entry.scope_number {
                    if name != entry.name {
                        assert(self.entries[i].contains_key(name));
                    }
                } else {
                    assert(after.entries[i] == self.entries[i]);
                    assert(self.entries[i].contains_key(name));
                }
            } else {
                assert(self.entries[i].contains_key(name));
            }
        }
    }
}

/// The entries of one scope as a map by name. A later entry replaces an
/// earlier one of the same name.
pub open spec fn entries_map(entries: Seq<Entry>) -> Map<Seq<char>, EntryModel>
    decreases entries.len(),
{
    if entries.len() == 0 {
        Map::empty()
    } else {
        entries_map(entries.drop_last()).insert(entries.last().name@, entries.last()@)
    }
}

proof fn lemma_entries_map_push(entries: Seq<Entry>, entry: Entry)
    ensures
        entries_map(entries.push(entry)) == entries_map(entries).insert(entry.name@, entry@),
{
    assert(entries.push(entry).drop_last() =~= entries);
}

proof fn lemma_entries_map_miss(entries: Seq<Entry>, name: Seq<char>)
    requires
        forall|k: int| 0 <= k < entries.len() ==> entries[k].name@ != name,
    ensures
        !entries_map(entries).contains_key(name),
    decreases entries.len(),
{
    if entries.len() > 0 {
        lemma_entries_map_miss(entries.drop_last(), name);
    }
}

proof fn lemma_entries_map_hit(entries: Seq<Entry>, name: Seq<char>, i: int)
    requires
        0 <= i < entries.len(),
        entries[i].name@ == name,
        forall|k: int| i < k < entries.len() ==> entries[k].name@ != name,
    ensures
        entries_map(entries).contains_key(name),
        entries_map(entries)[name] == entries[i]@,
    decreases entries.len(),
{
    if i < entries.len() - 1 {
        lemma_entries_map_hit(entries.drop_last(), name, i);
    }
}

proof fn lemma_entries_map_names(entries: Seq<Entry>, name: Seq<char>)
    requires
        entries_map(entries).contains_key(name),
    ensures
        entries_map(entries)[name].name == name,
    decreases entries.len(),
{
    if entries.len() > 0 {
        if entries.last().name@ != name {
            lemma_entries_map_names(entries.drop_last(), name);
        }
    }
}

/// The symbol table.
pub struct Symboltable {
    scopestack: Vec<i32>,
    table: Vec<Vec<Entry>>,
    scope_information_table: Vec<Scope>,
}

impl Symboltable {
    pub closed spec fn view(&self) -> TableModel {
        TableModel {
            stack: self.scopestack@,
            scopes: self.scope_information_table@,
            entries: Seq::new(self.table@.len(), |i: int| entries_map(self.table@[i]@)),
        }
    }

    /// The table is in a state that its own operations produce.
    pub closed spec fn wf(&self) -> bool {
        &&& self.table@.len() == self.scope_information_table@.len()
        &&& self@.wf()
    }

    /// A well-formed table has a well-formed model.
    pub proof fn lemma_wf_model(&self)
        requires
            self.wf(),
        ensures
            self@.wf(),
    {
    }

    /// Makes an existing scope the active one again and replaces its record.
    pub fn enter_scope(&mut self, scope: Scope)
        requires
            old(self).wf(),
            0 <= scope.scope_number < old(self)@.next_scope(),
            scope.enclosing_scope_number < scope.scope_number,
        ensures
            final(self).wf(),
            final(self)@ == old(self)@.enter(scope),
    {
        self.scope_information_table[scope.scope_number as usize] = scope;
        self.scopestack.push(scope.scope_number);
        proof {
            assert(self@.entries =~= old(self)@.entries);
            old(self)@.lemma_enter_wf(scope);
        }
    }

    /// The record of the scope with the given number, if there is one: what
    /// `enter_scope` takes to make that scope active again.
    pub fn get_scope(&self, scope_number: i32) -> (scope: Option<Scope>)
        ensures
            scope == if 0 <= scope_number < self@.scopes.len() {
                Some(self@.scopes[scope_number as int])
            } else {
                None
            },
    {
        if scope_number >= 0 && (scope_number as usize) < self.scope_information_table.len() {
            Some(self.scope_information_table[scope_number as usize])
        } else {
            None
        }
    }

    /// The number of scopes that were opened so far, which is the number that
    /// the next one gets.
    pub fn scope_count(&self) -> (count: usize)
        ensures
            count == self@.next_scope(),
    {
        self.scope_information_table.len()
    }

    /// The number of the active scope; 0 when none is active.
    pub fn get_current_scope_number(&self) -> (number: i32)
        ensures
            number == self@.current(),
    {
        let depth = self.scopestack.len();
        if depth > 0 {
            self.scopestack[depth - 1]
        } else {
            0
        }
    }

    /// Opens a new scope inside the active one, makes it the active scope and
    /// returns its number. When no scope is active nothing changes and the
    /// result is -1.
    pub fn new_scope_in_current_scope(&mut self, is_closed: bool) -> (number: i32)
        requires
            old(self).wf(),
            old(self)@.next_scope() < i32::MAX,
        ensures
            final(self).wf(),
            final(self)@ == old(self)@.child(is_closed),
            number == if old(self)@.stack.len() > 0 {
                old(self)@.next_scope()
            } else {
                -1
            },
    {
        let depth = self.scopestack.len();
        if depth > 0 {
            let enclosing_scope_number = self.scopestack[depth - 1];
            let number = self.scope_information_table.len() as i32;
            let scope = Scope { enclosing_scope_number, scope_number: number, is_closed };
            self.table.push(Vec::new());
            self.scope_information_table.push(scope);
            self.scopestack.push(number);
            proof {
                assert(self@.entries =~= old(self)@.entries.push(Map::empty()));
                old(self)@.lemma_child_wf(is_closed);
            }
            number
        } else {
            -1
        }
    }

    /// Leaves the active scope. Its entries stay stored.
    pub fn exit_scope(&mut self)
        requires
            old(self).wf(),
        ensures
            final(self).wf(),
            final(self)@ == old(self)@.exit(),
    {
        let popped = self.scopestack.pop();
        proof {
            assert(self@.entries =~= old(self)@.entries);
            if old(self)@.stack.len() == 0 {
                assert(self@.stack =~= old(self)@.stack);
            }
            old(self)@.lemma_exit_wf();
        }
    }

    /// Files an entry in the scope it names, in place of any entry of the same
    /// name there. Whether the name was declared before is for the caller to
    /// ask first.
    pub fn add_entry(&mut self, entry: Entry)
        requires
            old(self).wf(),
        ensures
            final(self).wf(),
            final(self)@ == old(self)@.add(entry@),
    {
        if entry.scope_number >= 0 && (entry.scope_number as usize) < self.table.len() {
            let index = entry.scope_number as usize;
            proof {
                lemma_entries_map_push(self.table@[index as int]@, entry);
            }
            self.table[index].push(entry);
            proof {
                assert(self@.entries =~= old(self)@.add(entry@).entries);
                old(self)@.lemma_add_wf(entry@);
            }
        }
    }

    /// Resolves a name: the entry of the nearest enclosing scope that declares
    /// it, starting at the active scope.
    pub fn lookup(&self, name: &String) -> (found: Option<&Entry>)
        requires
            self.wf(),
        ensures
            match found {
                Some(entry) => self@.lookup(name@) == Some(entry@),
                None => self@.lookup(name@).is_none(),
            },
    {
        let depth = self.scopestack.len();
        if depth == 0 {
            return None;
        }
        let mut scope_number: i32 = self.scopestack[depth - 1];
        loop
            invariant
                self.wf(),
                self@.stack.len() > 0,
                self@.lookup(name@) == self@.resolve(scope_number as int, name@),
                0 <= scope_number < self@.scopes.len(),
            decreases scope_number,
        {
            match self.lookup_explicit_scope(name, scope_number) {
                Some(entry) => {
                    return Some(entry);
                },
                None => {
                    let parent =
                        self.scope_information_table[scope_number as usize].enclosing_scope_number;
                    assert(self@.scopes[scope_number as int].enclosing_scope_number
                        < scope_number);
                    if parent < 0 {
                        return None;
                    }
                    scope_number = parent;
                },
            }
        }
    }

    fn lookup_explicit_scope(&self, name: &String, scope_number: i32) -> (found: Option<&Entry>)
        requires
            self.wf(),
        ensures
            match found {
                Some(entry) => self@.find_in(scope_number as int, name@) == Some(entry@),
                None => self@.find_in(scope_number as int, name@).is_none(),
            },
    {
        if scope_number < 0 || scope_number as usize >= self.table.len() {
            return None;
        }
        let entries = &self.table[scope_number as usize];
        assert(self@.entries[scope_number as int] == entries_map(entries@));
        let mut i: usize = entries.len();
        while i > 0
            invariant
                i <= entries.len(),
                0 <= scope_number < self@.entries.len(),
                self@.entries[scope_number as int] == entries_map(entries@),
                forall|k: int| i <= k < entries.len() ==> entries@[k].name@ != name@,
            decreases i,
        {
            i = i - 1;
            if entries[i].name == *name {
                proof {
                    lemma_entries_map_hit(entries@, name@, i as int);
                }
                return Some(&entries[i]);
            }
        }
        proof {
            lemma_entries_map_miss(entries@, name@);
        }
        None
    }

    /// Whether the active scope itself declares the name.
    pub fn in_current_scope(&self, name: &String) -> (declared: bool)
        requires
            self.wf(),
        ensures
            declared == self@.declared_here(name@),
    {
        let depth = self.scopestack.len();
        if depth > 0 {
            match self.lookup_explicit_scope(name, self.scopestack[depth - 1]) {
                Some(_entry) => true,
                None => false,
            }
        } else {
            false
        }
    }
}

/// A built-in entry: it lives in the outermost scope.
pub open spec fn builtin(
    name: Seq<char>,
    category: CategoryModel,
    value: Seq<char>,
    kind: SimpleType,
    address: u64,
) -> EntryModel {
    EntryModel {
        name,
        category,
        value,
        entry_type: NodeType::Simple(kind),
        scope_number: 0,
        address: Address { data: AddressData::Simple(address) },
    }
}

/// The built-in names: the four scalar types, the two truth values at their
/// reserved addresses 0 and 1, and the three special routines.
pub open spec fn builtin_entries() -> Map<Seq<char>, EntryModel> {
    Map::empty().insert(
        "boolean"@,
        builtin("boolean"@, CategoryModel::TypeId, "0"@, SimpleType::Boolean, 0),
    ).insert(
        "integer"@,
        builtin("integer"@, CategoryModel::TypeId, "0"@, SimpleType::Integer, 0),
    ).insert("real"@, builtin("real"@, CategoryModel::TypeId, "0"@, SimpleType::Real, 0)).insert(
        "string"@,
        builtin("string"@, CategoryModel::TypeId, ""@, SimpleType::String, 0),
    ).insert(
        "false"@,
        builtin("false"@, CategoryModel::SimpleVar, "0"@, SimpleType::Boolean, 0),
    ).insert(
        "true"@,
        builtin("true"@, CategoryModel::SimpleVar, "1"@, SimpleType::Boolean, 1),
    ).insert(
        "writeln"@,
        builtin("writeln"@, CategoryModel::Special, ""@, SimpleType::String, 0),
    ).insert("read"@, builtin("read"@, CategoryModel::Special, ""@, SimpleType::String, 0)).insert(
        "size"@,
        builtin("size"@, CategoryModel::Special, ""@, SimpleType::Integer, 0),
    )
}

/// The table that a compilation starts with: the outermost scope alone,
/// active, holding the built-in names.
pub open spec fn initial_table() -> TableModel {
    TableModel {
        stack: seq![0i32],
        scopes: seq![Scope { scope_number: 0, enclosing_scope_number: -1i32, is_closed: false }],
        entries: seq![builtin_entries()],
    }
}

fn push_builtin(
    entries: &mut Vec<Entry>,
    name: &str,
    category: ConstructCategory,
    value: &str,
    kind: SimpleType,
    address: u64,
)
    ensures
        entries_map(final(entries)@) == entries_map(old(entries)@).insert(
            name@,
            builtin(name@, category@, value@, kind, address),
        ),
{
    let entry = Entry {
        name: String::from_str(name),
        category,
        value: String::from_str(value),
        entry_type: NodeType::Simple(kind),
        scope_number: 0,
        address: Address::new_simple(address),
    };
    proof {
        lemma_entries_map_push(entries@, entry);
    }
    entries.push(entry);
}

fn predefined_ids() -> (entries: Vec<Entry>)
    ensures
        entries_map(entries@) == builtin_entries(),
{
    let mut entries = Vec::new();
    push_builtin(&mut entries, "boolean", ConstructCategory::TypeId, "0", SimpleType::Boolean, 0);
    push_builtin(&mut entries, "integer", ConstructCategory::TypeId, "0", SimpleType::Integer, 0);
    push_builtin(&mut entries, "real", ConstructCategory::TypeId, "0", SimpleType::Real, 0);
    push_builtin(&mut entries, "string", ConstructCategory::TypeId, "", SimpleType::String, 0);
    push_builtin(&mut entries, "false", ConstructCategory::SimpleVar, "0", SimpleType::Boolean, 0);
    push_builtin(&mut entries, "true", ConstructCategory::SimpleVar, "1", SimpleType::Boolean, 1);
    push_builtin(&mut entries, "writeln", ConstructCategory::Special, "", SimpleType::String, 0);
    push_builtin(&mut entries, "read", ConstructCategory::Special, "", SimpleType::String, 0);
    push_builtin(&mut entries, "size", ConstructCategory::Special, "", SimpleType::Integer, 0);
    entries
}

/// The table that a compilation starts with.
pub fn get_symbol_table() -> (table: Symboltable)
    ensures
        table.wf(),
        table@ == initial_table(),
{
    let scope_zero_info = Scope { scope_number: 0, enclosing_scope_number: -1, is_closed: false };
    let scope_zero = predefined_ids();
    proof {
        assert forall|name: Seq<char>| #[trigger]
            entries_map(scope_zero@).contains_key(name) implies entries_map(
            scope_zero@,
        )[name].name == name by {
            lemma_entries_map_names(scope_zero@, name);
        }
    }
    let mut table: Vec<Vec<Entry>> = Vec::new();
    table.push(scope_zero);
    let mut scope_table: Vec<Scope> = Vec::new();
    scope_table.push(scope_zero_info);
    let mut scopestack: Vec<i32> = Vec::new();
    scopestack.push(0);
    let symboltable = Symboltable { scope_information_table: scope_table, table, scopestack };
    proof {
        assert(symboltable@.stack =~= initial_table().stack);
        assert(symboltable@.scopes =~= initial_table().scopes);
        assert(symboltable@.entries =~= initial_table().entries);
    }
    symboltable
}

impl TableModel {
    /// How a name resolves from a scope depends only on that scope and the
    /// scopes with smaller numbers.
    pub proof fn lemma_resolve_local(self, other: TableModel, scope: int, name: Seq<char>)
        requires
            scope < self.scopes.len(),
            scope < other.scopes.len(),
            scope < self.entries.len(),
            scope < other.entries.len(),
            forall|i: int| 0 <= i <= scope ==> self.scopes[i] == other.scopes[i],
            forall|i: int| 0 <= i <= scope ==> self.entries[i] == other.entries[i],
        ensures
            self.resolve(scope, name) == other.resolve(scope, name),
        decreases scope,
    {
        if 0 <= scope {
            let parent = self.scopes[scope].enclosing_scope_number as int;
            if self.find_in(scope, name).is_none() && 0 <= parent < scope {
                self.lemma_resolve_local(other, parent, name);
            }
        }
    }

    /// Shadowing. A name declared in a scope that was just opened resolves to
    /// that declaration while the scope is active, whatever the scopes around
    /// it declare; every other name resolves as it did outside. Once the scope
    /// is left, every name resolves again as it did before the scope was
    /// opened.
    pub proof fn lemma_shadowing(self, is_closed: bool, entry: EntryModel, name: Seq<char>)
        requires
            self.wf(),
            self.stack.len() > 0,
            self.next_scope() < i32::MAX,
            entry.scope_number == self.next_scope(),
        ensures
            self.child(is_closed).add(entry).lookup(entry.name) == Some(entry),
            name != entry.name ==> self.child(is_closed).add(entry).lookup(name) == self.lookup(
                name,
            ),
            self.child(is_closed).add(entry).exit().lookup(name) == self.lookup(name),
            self.child(is_closed).add(entry).exit().stack == self.stack,
    {
        let inner = self.child(is_closed).add(entry);
        let after = inner.exit();
        let outer = self.stack.last() as int;
        assert(after.stack =~= self.stack);
        assert(0 <= self.stack[self.stack.len() - 1] < self.scopes.len());
        assert forall|i: int| 0 <= i <= outer implies inner.scopes[i] == self.scopes[i] by {}
        assert forall|i: int| 0 <= i <= outer implies inner.entries[i] == self.entries[i] by {}
        inner.lemma_resolve_local(self, outer, name);
        after.lemma_resolve_local(self, outer, name);
        assert(inner.find_in(self.next_scope(), entry.name) == Some(entry));
        if name != entry.name {
            assert(inner.find_in(self.next_scope(), name).is_none());
        }
    }

    /// Declaring a name in the active scope makes it resolve to the new entry
    /// and leaves the meaning of every other name as it was.
    pub proof fn lemma_declare(self, entry: EntryModel, name: Seq<char>)
        requires
            self.wf(),
            self.stack.len() > 0,
            entry.scope_number == self.current(),
        ensures
            self.add(entry).lookup(entry.name) == Some(entry),
            self.add(entry).declared_here(entry.name),
            name != entry.name ==> self.add(entry).lookup(name) == self.lookup(name),
            name != entry.name ==> self.add(entry).declared_here(name) == self.declared_here(name),
    {
        assert(0 <= self.stack[self.stack.len() - 1] < self.scopes.len());
        if name != entry.name {
            self.lemma_add_other_name(entry, self.current() as int, name);
        }
    }

    /// Filing an entry leaves the resolution of every other name as it was,
    /// from every scope.
    pub proof fn lemma_add_other_name(self, entry: EntryModel, scope: int, name: Seq<char>)
        requires
            self.wf(),
            name != entry.name,
        ensures
            self.add(entry).resolve(scope, name) == self.resolve(scope, name),
        decreases scope,
    {
        if 0 <= scope < self.scopes.len() {
            let parent = self.scopes[scope].enclosing_scope_number as int;
            if self.find_in(scope, name).is_none() && 0 <= parent < scope {
                self.lemma_add_other_name(entry, parent, name);
            }
        }
    }
}

} // verus!
