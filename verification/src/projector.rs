//! The row projector: from the columns of a query result and one of its
//! rows to the state attributes of a resource document.

use vstd::prelude::*;
use vstd::string::StringExecFns;
use crate::assoc::{find_key, key_views, position};
use crate::model::ResourceView;
use crate::number::Float;
use crate::resource::Resource;
use crate::value::{StateValue, ValueView};

verus! {

/// The type that the database declares for a column.
#[derive(Debug, Clone, PartialEq, Eq)]
pub enum DeclaredType {
    Text,
    /// A 32-bit integer.
    Int32,
    /// A 64-bit float.
    Float64,
    /// Any other type, with the tag under which the database names it.
    Other(String),
}

/// The mathematical value of a `DeclaredType`.
pub enum TypeView {
    Text,
    Int32,
    Float64,
    Other(Seq<char>),
}

impl View for DeclaredType {
    type V = TypeView;

    open spec fn view(&self) -> TypeView {
        match self {
            DeclaredType::Text => TypeView::Text,
            DeclaredType::Int32 => TypeView::Int32,
            DeclaredType::Float64 => TypeView::Float64,
            DeclaredType::Other(tag) => TypeView::Other(tag@),
        }
    }
}

/// A column of a query result: its name and its declared type.
#[derive(Debug, Clone, PartialEq, Eq)]
pub struct ColumnDescriptor {
    pub name: String,
    pub declared_type: DeclaredType,
}

/// The mathematical value of a `ColumnDescriptor`.
pub struct ColumnView {
    pub name: Seq<char>,
    pub declared_type: TypeView,
}

impl View for ColumnDescriptor {
    type V = ColumnView;

    open spec fn view(&self) -> ColumnView {
        ColumnView { name: self.name@, declared_type: self.declared_type@ }
    }
}

/// The values of the columns, in order.
pub open spec fn column_views(columns: Seq<ColumnDescriptor>) -> Seq<ColumnView> {
    Seq::new(columns.len(), |i: int| columns[i]@)
}

/// What a row holds in one column, as far as it can be read.
#[derive(Debug, PartialEq, Eq)]
pub enum Cell {
    Text(String),
    /// A 32-bit integer.
    Int32(i32),
    /// A 64-bit float.
    Float64(Float),
    /// A value that cannot be read as text, as an integer or as a float.
    Unreadable,
}

/// The mathematical value of a `Cell`.
pub enum CellView {
    Text(Seq<char>),
    Int32(int),
    Float64(Option<Seq<char>>),
    Unreadable,
}

impl View for Cell {
    type V = CellView;

    open spec fn view(&self) -> CellView {
        match self {
            Cell::Text(s) => CellView::Text(s@),
            Cell::Int32(n) => CellView::Int32(*n as int),
            Cell::Float64(f) => CellView::Float64(f@),
            Cell::Unreadable => CellView::Unreadable,
        }
    }
}

/// The values of the cells, in order.
pub open spec fn cell_views(cells: Seq<Cell>) -> Seq<CellView> {
    Seq::new(cells.len(), |i: int| cells[i]@)
}

/// One row of a query result: the names of its columns, and the cell that
/// it holds in each.
#[derive(Debug, PartialEq, Eq)]
pub struct Row {
    names: Vec<String>,
    cells: Vec<Cell>,
}

/// The mathematical value of a `Row`: as many cells as names.
pub struct RowView {
    pub names: Seq<Seq<char>>,
    pub cells: Seq<CellView>,
}

impl View for Row {
    type V = RowView;

    closed spec fn view(&self) -> RowView {
        RowView { names: key_views(self.names@), cells: cell_views(self.cells@) }
    }
}

impl RowView {
    /// The row without columns.
    pub open spec fn empty() -> RowView {
        RowView { names: Seq::empty(), cells: Seq::empty() }
    }

    /// The row with one more column at the end.
    pub open spec fn with(self, name: Seq<char>, cell: CellView) -> RowView {
        RowView { names: self.names.push(name), cells: self.cells.push(cell) }
    }

    /// The cell of the first column with the given name.
    pub open spec fn get(self, name: Seq<char>) -> Option<CellView> {
        let p = position(self.names, name);
        if p < self.names.len() {
            Some(self.cells[p])
        } else {
            None
        }
    }

    /// The cell of the column at the given place.
    pub open spec fn get_at(self, ordinal: int) -> Option<CellView> {
        if 0 <= ordinal < self.cells.len() {
            Some(self.cells[ordinal])
        } else {
            None
        }
    }
}

impl Row {
    #[verifier::type_invariant]
    spec fn inv(&self) -> bool {
        self.names.len() == self.cells.len()
    }

    /// A row without columns.
    pub fn new() -> (row: Row)
        ensures
            row@ == RowView::empty(),
    {
        let row = Row { names: Vec::new(), cells: Vec::new() };
        proof {
            assert(row@.names =~= Seq::empty());
            assert(row@.cells =~= Seq::empty());
        }
        row
    }

    /// The row with one more column at the end.
    pub fn with(self, name: &str, cell: Cell) -> (row: Row)
        ensures
            row@ == self@.with(name@, cell@),
    {
        proof {
            use_type_invariant(&self);
        }
        let mut names = self.names;
        let mut cells = self.cells;
        names.push(String::from_str(name));
        cells.push(cell);
        let row = Row { names, cells };
        proof {
            assert(row@.names =~= self@.names.push(name@));
            assert(row@.cells =~= self@.cells.push(cell@));
        }
        row
    }

    /// The number of columns.
    pub fn len(&self) -> (n: usize)
        ensures
            n == self@.cells.len(),
            n == self@.names.len(),
    {
        proof {
            use_type_invariant(self);
        }
        self.cells.len()
    }

    /// The cell of the first column with the given name.
    pub fn get(&self, name: &str) -> (cell: Option<&Cell>)
        ensures
            match cell {
                Some(c) => self@.get(name@) == Some(c@),
                None => self@.get(name@) is None,
            },
    {
        proof {
            use_type_invariant(self);
        }
        let name = String::from_str(name);
        match find_key(&self.names, &name) {
            Some(p) => Some(&self.cells[p]),
            None => None,
        }
    }

    /// The cell of the column at the given place, counted from zero.
    pub fn get_at(&self, ordinal: usize) -> (cell: Option<&Cell>)
        ensures
            match cell {
                Some(c) => self@.get_at(ordinal as int) == Some(c@),
                None => self@.get_at(ordinal as int) is None,
            },
    {
        if ordinal < self.cells.len() {
            Some(&self.cells[ordinal])
        } else {
            None
        }
    }
}

/// A record of a column whose declared type the projector does not handle.
#[derive(Debug, Clone, PartialEq, Eq)]
pub struct Diagnostic {
    /// The name of the column.
    pub column: String,
    /// The tag of its declared type.
    pub type_tag: String,
}

impl View for Diagnostic {
    type V = (Seq<char>, Seq<char>);

    open spec fn view(&self) -> (Seq<char>, Seq<char>) {
        (self.column@, self.type_tag@)
    }
}

/// The values of the diagnostics, in order.
pub open spec fn diagnostic_views(diagnostics: Seq<Diagnostic>) -> Seq<(Seq<char>, Seq<char>)> {
    Seq::new(diagnostics.len(), |i: int| diagnostics[i]@)
}

/// What the projector makes of a row.
#[derive(Debug, PartialEq, Eq)]
pub struct Projection {
    /// The document: state attributes only, no self link and no links.
    pub document: Resource,
    /// One record for each column of an unhandled type, in column order.
    pub diagnostics: Vec<Diagnostic>,
}

/// The mathematical value of a `Projection`.
pub struct ProjectionView {
    pub document: ResourceView,
    pub diagnostics: Seq<(Seq<char>, Seq<char>)>,
}

impl View for Projection {
    type V = ProjectionView;

    open spec fn view(&self) -> ProjectionView {
        ProjectionView {
            document: self.document@,
            diagnostics: diagnostic_views(self.diagnostics@),
        }
    }
}

/// Why a row has no projection. The number is the place of the first column
/// at fault, counted from zero.
#[derive(Debug, Clone, Copy, PartialEq, Eq)]
pub enum ProjectionError {
    /// The row has no value of the declared type under the name of this
    /// column.
    Unreadable(usize),
    /// The name of this column is a key that a document keeps for itself.
    ReservedName(usize),
}

/// The state value read from the row for a column of a handled type, if the
/// row has a cell of that type under the name of the column. An integer is
/// widened to 64 bits; text and floats are taken as they are.
pub open spec fn read(row: RowView, column: ColumnView) -> Option<ValueView> {
    match (column.declared_type, row.get(column.name)) {
        (TypeView::Text, Some(CellView::Text(s))) => Some(ValueView::Text(s)),
        (TypeView::Int32, Some(CellView::Int32(n))) => Some(ValueView::Int(n)),
        (TypeView::Float64, Some(CellView::Float64(f))) => Some(ValueView::Float(f)),
        _ => None,
    }
}

/// The projection extended by one column: a column of a handled type adds
/// what is read from the row; a column of another type adds null, and a
/// diagnostic that names the column and the tag of its type.
pub open spec fn project_column(
    so_far: ProjectionView,
    row: RowView,
    column: ColumnView,
    ordinal: int,
) -> Result<ProjectionView, ProjectionError> {
    match column.declared_type {
        TypeView::Other(tag) => match so_far.document.add_state(column.name, ValueView::Null) {
            Ok(document) => Ok(
                ProjectionView {
                    document,
                    diagnostics: so_far.diagnostics.push((column.name, tag)),
                },
            ),
            Err(_) => Err(ProjectionError::ReservedName(ordinal as usize)),
        },
        _ => match read(row, column) {
            None => Err(ProjectionError::Unreadable(ordinal as usize)),
            Some(value) => match so_far.document.add_state(column.name, value) {
                Ok(document) => Ok(ProjectionView { document, diagnostics: so_far.diagnostics }),
                Err(_) => Err(ProjectionError::ReservedName(ordinal as usize)),
            },
        },
    }
}

/// The projection of the first `n` columns, taken in their order; the error
/// of the first column at fault, if there is one.
pub open spec fn project_first(columns: Seq<ColumnView>, row: RowView, n: nat) -> Result<
    ProjectionView,
    ProjectionError,
>
    decreases n,
{
    if n == 0 {
        Ok(ProjectionView { document: ResourceView::empty(), diagnostics: Seq::empty() })
    } else {
        match project_first(columns, row, (n - 1) as nat) {
            Ok(so_far) => project_column(so_far, row, columns[n - 1], n - 1),
            Err(e) => Err(e),
        }
    }
}

/// The projection of a row: one state attribute for each column, in column
/// order.
pub open spec fn projection(columns: Seq<ColumnView>, row: RowView) -> Result<
    ProjectionView,
    ProjectionError,
> {
    project_first(columns, row, columns.len())
}

/// A column at fault fails the projection of every longer run of columns,
/// with the same error.
pub proof fn lemma_first_fault(columns: Seq<ColumnView>, row: RowView, n: nat, m: nat)
    requires
        n <= m,
        project_first(columns, row, n) is Err,
    ensures
        project_first(columns, row, m) == project_first(columns, row, n),
    decreases m,
{
    if n < m {
        lemma_first_fault(columns, row, n, (m - 1) as nat);
    }
}

fn read_cell(row: &Row, column: &ColumnDescriptor) -> (value: Option<StateValue>)
    requires
        !(column.declared_type is Other),
    ensures
        match value {
            Some(v) => read(row@, column@) == Some(v@),
            None => read(row@, column@) is None,
        },
{
    match row.get(column.name.as_str()) {
        None => None,
        Some(cell) => match (&column.declared_type, cell) {
            (DeclaredType::Text, Cell::Text(s)) => Some(StateValue::Text(s.clone())),
            (DeclaredType::Int32, Cell::Int32(n)) => Some(StateValue::Int(*n as i64)),
            (DeclaredType::Float64, Cell::Float64(f)) => Some(StateValue::Float(f.clone())),
            _ => None,
        },
    }
}

/// Projects a row into a resource document with one state attribute for
/// each column, in column order, and neither self link nor links. A text
/// column gives a string, a 32-bit integer column a 64-bit integer, a float
/// column the float unchanged. A column of any other type gives null and a
/// diagnostic; it does not fail the projection.
///
/// The projection fails only where the row or the document does: if the row
/// has no value of the declared type for a column, or if a column bears a
/// name that a document keeps for itself.
pub fn project(columns: &Vec<ColumnDescriptor>, row: &Row) -> (outcome: Result<
    Projection,
    ProjectionError,
>)
    ensures
        match (outcome, projection(column_views(columns@), row@)) {
            (Ok(p), Ok(view)) => p@ == view && view.document.wf(),
            (Err(e), Err(f)) => e == f,
            _ => false,
        },
{
    let ghost views = column_views(columns@);
    let mut document = Resource::new();
    let mut diagnostics: Vec<Diagnostic> = Vec::new();
    let mut i: usize = 0;
    proof {
        assert(diagnostic_views(diagnostics@) =~= Seq::empty());
    }
    while i < columns.len()
        invariant
            i <= columns.len(),
            views == column_views(columns@),
            document@.wf(),
            project_first(views, row@, i as nat) == Ok::<ProjectionView, ProjectionError>(
                ProjectionView {
                    document: document@,
                    diagnostics: diagnostic_views(diagnostics@),
                },
            ),
        decreases columns.len() - i,
    {
        let column = &columns[i];
        let ghost so_far = ProjectionView {
            document: document@,
            diagnostics: diagnostic_views(diagnostics@),
        };
        assert(views[i as int] == column@);
        let value = match &column.declared_type {
            DeclaredType::Other(tag) => {
                let ghost before = diagnostic_views(diagnostics@);
                diagnostics.push(Diagnostic { column: column.name.clone(), type_tag: tag.clone() });
                proof {
                    assert(diagnostic_views(diagnostics@) =~= before.push((column@.name, tag@)));
                }
                StateValue::Null
            },
            _ => match read_cell(row, column) {
                Some(value) => value,
                None => {
                    proof {
                        lemma_first_fault(views, row@, (i + 1) as nat, views.len());
                    }
                    return Err(ProjectionError::Unreadable(i));
                },
            },
        };
        match document.add_state(column.name.as_str(), value) {
            Ok(next) => {
                document = next;
            },
            Err(_) => {
                proof {
                    lemma_first_fault(views, row@, (i + 1) as nat, views.len());
                }
                return Err(ProjectionError::ReservedName(i));
            },
        }
        i = i + 1;
    }
    Ok(Projection { document, diagnostics })
}

} // verus!
