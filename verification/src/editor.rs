//! Notebook document types and editor request types.
//!
//! The storage engine treats notebook contents as opaque structured records:
//! it stores and returns them but never interprets cell contents, outputs or
//! chart configurations.  Query outputs carry their row values as serialized
//! text, and chart configurations travel as opaque serialized documents; the
//! boundary layer converts them to and from richer host representations.

use vstd::prelude::*;
use crate::messages::Timestamp;
use crate::text::{opt_text_eq_spec, texts_eq};

verus! {

/// Cell type.
#[derive(Clone, Copy, Debug, PartialEq, Eq, Structural)]
pub enum CellType {
    /// SQL query cell.
    Sql,
    /// Markdown documentation cell.
    Markdown,
}

/// Execution state.
#[derive(Clone, Copy, Debug, PartialEq, Eq, Structural)]
pub enum ExecutionState {
    /// Not executed.
    Idle,
    /// Currently running.
    Running,
    /// Completed successfully.
    Success,
    /// Completed with error.
    Error,
}

impl Default for ExecutionState {
    /// A fresh cell starts idle.
    fn default() -> (r: Self)
        ensures
            r == ExecutionState::Idle,
    {
        ExecutionState::Idle
    }
}

/// A notebook cell.
#[derive(Clone, Debug)]
pub struct Cell {
    /// Unique cell ID.
    pub id: String,
    /// Cell type.
    pub cell_type: CellType,
    /// Cell content (SQL or Markdown).
    pub content: String,
    /// Cell output (query results, rendered markdown, or error).
    pub output: Option<CellOutput>,
    /// Execution state.
    pub state: ExecutionState,
    /// Execution number (for ordering).
    pub execution_count: Option<u32>,
    /// Creation timestamp.
    pub created_at: Timestamp,
    /// Last modified timestamp.
    pub modified_at: Timestamp,
    /// Whether the cell is collapsed.
    pub collapsed: bool,
}

/// Cell output.
#[derive(Clone, Debug)]
pub enum CellOutput {
    /// Query result.
    Query(QueryOutput),
    /// Rendered markdown.
    Markdown(MarkdownOutput),
    /// Error output.
    Error(ErrorOutput),
}

/// Query output.  Row values are carried as serialized text.
#[derive(Clone, Debug)]
pub struct QueryOutput {
    /// Column names.
    pub columns: Vec<String>,
    /// Row data, one serialized value per column.
    pub rows: Vec<Vec<String>>,
    /// Total row count (before limit).
    pub total_rows: u64,
    /// Execution time in ms.
    pub execution_time_ms: u32,
    /// Whether the result was truncated.
    pub truncated: bool,
}

/// Rendered markdown output.
#[derive(Clone, Debug)]
pub struct MarkdownOutput {
    /// Rendered HTML.
    pub html: String,
}

/// Error output.
#[derive(Clone, Debug)]
pub struct ErrorOutput {
    /// Error message.
    pub message: String,
    /// Optional stack trace or details.
    pub details: Option<String>,
}

/// Notebook document.
#[derive(Clone, Debug)]
pub struct Notebook {
    /// Stable notebook identifier (the storage key).
    pub id: String,
    /// Format version.
    pub version: u32,
    /// Notebook metadata.
    pub metadata: NotebookMetadata,
    /// Cells in order.
    pub cells: Vec<Cell>,
    /// Loaded data files.
    pub loaded_data: Vec<String>,
    /// Chart configurations, carried as opaque serialized documents.
    pub charts: Vec<String>,
}

/// Notebook metadata.
#[derive(Clone, Debug)]
pub struct NotebookMetadata {
    /// Notebook title.
    pub title: Option<String>,
    /// Author (npub if signed).
    pub author: Option<String>,
    /// Tags for categorization.
    pub tags: Vec<String>,
    /// Creation timestamp.
    pub created_at: Timestamp,
    /// Last modified timestamp.
    pub modified_at: Timestamp,
    /// Description.
    pub description: Option<String>,
}

/// Field-for-field equivalence of rows of serialized values.
pub open spec fn rows_eq(a: Seq<Vec<String>>, b: Seq<Vec<String>>) -> bool {
    a.len() == b.len() && forall|i: int| 0 <= i < a.len() ==> texts_eq(#[trigger] a[i]@, b[i]@)
}

/// Field-for-field equivalence of cell outputs.
pub open spec fn cell_output_eq(a: CellOutput, b: CellOutput) -> bool {
    match a {
        CellOutput::Query(qa) => b matches CellOutput::Query(qb)
            && texts_eq(qa.columns@, qb.columns@)
            && rows_eq(qa.rows@, qb.rows@)
            && qa.total_rows == qb.total_rows
            && qa.execution_time_ms == qb.execution_time_ms
            && qa.truncated == qb.truncated,
        CellOutput::Markdown(ma) => b matches CellOutput::Markdown(mb) && ma.html@ == mb.html@,
        CellOutput::Error(ea) => b matches CellOutput::Error(eb)
            && ea.message@ == eb.message@
            && opt_text_eq_spec(ea.details, eb.details),
    }
}

/// Field-for-field equivalence of cells.
pub open spec fn cell_eq(a: Cell, b: Cell) -> bool {
    &&& a.id@ == b.id@
    &&& a.cell_type == b.cell_type
    &&& a.content@ == b.content@
    &&& match a.output {
        Option::None => b.output is None,
        Option::Some(oa) => b.output matches Option::Some(ob) && cell_output_eq(oa, ob),
    }
    &&& a.state == b.state
    &&& a.execution_count == b.execution_count
    &&& a.created_at == b.created_at
    &&& a.modified_at == b.modified_at
    &&& a.collapsed == b.collapsed
}

/// Field-for-field equivalence of notebook metadata.
pub open spec fn metadata_eq(a: NotebookMetadata, b: NotebookMetadata) -> bool {
    &&& opt_text_eq_spec(a.title, b.title)
    &&& opt_text_eq_spec(a.author, b.author)
    &&& texts_eq(a.tags@, b.tags@)
    &&& a.created_at == b.created_at
    &&& a.modified_at == b.modified_at
    &&& opt_text_eq_spec(a.description, b.description)
}

/// Field-for-field equivalence of notebooks.
pub open spec fn notebook_eq(a: Notebook, b: Notebook) -> bool {
    &&& a.id@ == b.id@
    &&& a.version == b.version
    &&& metadata_eq(a.metadata, b.metadata)
    &&& a.cells@.len() == b.cells@.len()
    &&& forall|i: int| 0 <= i < a.cells@.len() ==> cell_eq(#[trigger] a.cells@[i], b.cells@[i])
    &&& texts_eq(a.loaded_data@, b.loaded_data@)
    &&& texts_eq(a.charts@, b.charts@)
}

/// Field-for-field equivalence of notebook sequences, in order.
pub open spec fn notebooks_eq(a: Seq<Notebook>, b: Seq<Notebook>) -> bool {
    a.len() == b.len() && forall|i: int| 0 <= i < a.len() ==> notebook_eq(#[trigger] a[i], b[i])
}

/// Copies an optional string by content.
fn duplicate_opt_text(o: &Option<String>) -> (r: Option<String>)
    ensures
        opt_text_eq_spec(r, *o),
{
    match o {
        Option::None => Option::None,
        Option::Some(s) => Option::Some(s.clone()),
    }
}

/// Copies rows of serialized values.
fn duplicate_rows(v: &Vec<Vec<String>>) -> (r: Vec<Vec<String>>)
    ensures
        rows_eq(r@, v@),
{
    let mut r: Vec<Vec<String>> = Vec::new();
    let mut i: usize = 0;
    while i < v.len()
        invariant
            0 <= i <= v@.len(),
            r@.len() == i,
            forall|j: int| 0 <= j < i ==> texts_eq((#[trigger] r@[j])@, v@[j]@),
        decreases v@.len() - i,
    {
        r.push(crate::text::clone_texts(&v[i]));
        i = i + 1;
    }
    r
}

impl CellOutput {
    /// Copies the output; the copy is field-for-field equivalent.
    pub fn duplicate(&self) -> (r: Self)
        ensures
            cell_output_eq(r, *self),
    {
        match self {
            CellOutput::Query(q) => CellOutput::Query(QueryOutput {
                columns: crate::text::clone_texts(&q.columns),
                rows: duplicate_rows(&q.rows),
                total_rows: q.total_rows,
                execution_time_ms: q.execution_time_ms,
                truncated: q.truncated,
            }),
            CellOutput::Markdown(m) => CellOutput::Markdown(MarkdownOutput { html: m.html.clone() }),
            CellOutput::Error(e) => CellOutput::Error(ErrorOutput {
                message: e.message.clone(),
                details: duplicate_opt_text(&e.details),
            }),
        }
    }
}

impl Cell {
    /// Copies the cell; the copy is field-for-field equivalent.
    pub fn duplicate(&self) -> (r: Self)
        ensures
            cell_eq(r, *self),
    {
        Cell {
            id: self.id.clone(),
            cell_type: self.cell_type,
            content: self.content.clone(),
            output: match &self.output {
                Option::None => Option::None,
                Option::Some(o) => Option::Some(o.duplicate()),
            },
            state: self.state,
            execution_count: self.execution_count,
            created_at: self.created_at,
            modified_at: self.modified_at,
            collapsed: self.collapsed,
        }
    }
}

impl NotebookMetadata {
    /// Copies the metadata; the copy is field-for-field equivalent.
    pub fn duplicate(&self) -> (r: Self)
        ensures
            metadata_eq(r, *self),
    {
        NotebookMetadata {
            title: duplicate_opt_text(&self.title),
            author: duplicate_opt_text(&self.author),
            tags: crate::text::clone_texts(&self.tags),
            created_at: self.created_at,
            modified_at: self.modified_at,
            description: duplicate_opt_text(&self.description),
        }
    }
}

impl Notebook {
    /// Copies the notebook; the copy is field-for-field equivalent.
    pub fn duplicate(&self) -> (r: Self)
        ensures
            notebook_eq(r, *self),
    {
        let mut cells: Vec<Cell> = Vec::new();
        let mut i: usize = 0;
        while i < self.cells.len()
            invariant
                0 <= i <= self.cells@.len(),
                cells@.len() == i,
                forall|j: int| 0 <= j < i ==> cell_eq(#[trigger] cells@[j], self.cells@[j]),
            decreases self.cells@.len() - i,
        {
            cells.push(self.cells[i].duplicate());
            i = i + 1;
        }
        Notebook {
            id: self.id.clone(),
            version: self.version,
            metadata: self.metadata.duplicate(),
            cells,
            loaded_data: crate::text::clone_texts(&self.loaded_data),
            charts: crate::text::clone_texts(&self.charts),
        }
    }
}

/// Execute cell request.
#[derive(Clone, Debug)]
pub struct ExecuteCellRequest {
    /// Cell ID.
    pub cell_id: String,
}

/// Add cell request.
#[derive(Clone, Debug)]
pub struct AddCellRequest {
    /// Cell type.
    pub cell_type: CellType,
    /// Initial content.
    pub content: String,
    /// Position (None = end).
    pub after_cell_id: Option<String>,
}

/// Delete cell request.
#[derive(Clone, Debug)]
pub struct DeleteCellRequest {
    /// Cell ID to delete.
    pub cell_id: String,
}

/// Move cell request.
#[derive(Clone, Debug)]
pub struct MoveCellRequest {
    /// Cell ID to move.
    pub cell_id: String,
    /// Direction (-1 = up, 1 = down).
    pub direction: i32,
}

/// Update cell content request.
#[derive(Clone, Debug)]
pub struct UpdateCellRequest {
    /// Cell ID.
    pub cell_id: String,
    /// New content.
    pub content: String,
}

/// Autocomplete request.
#[derive(Clone, Debug)]
pub struct AutocompleteRequest {
    /// Partial SQL text.
    pub text: String,
    /// Cursor position.
    pub cursor_position: u32,
}

/// Autocomplete suggestion.
#[derive(Clone, Debug)]
pub struct AutocompleteSuggestion {
    /// Display label.
    pub label: String,
    /// Text to insert.
    pub insert_text: String,
    /// Suggestion kind.
    pub kind: SuggestionKind,
    /// Optional documentation.
    pub documentation: Option<String>,
}

/// Suggestion kind.
#[derive(Clone, Copy, Debug, PartialEq, Eq, Structural)]
pub enum SuggestionKind {
    Table,
    Column,
    Function,
    Keyword,
}

/// Autocomplete result.
#[derive(Clone, Debug)]
pub struct AutocompleteResult {
    /// Suggestions.
    pub suggestions: Vec<AutocompleteSuggestion>,
}

} // verus!
