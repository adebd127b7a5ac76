use vstd::prelude::*;

verus! {

/// One exported symbol of the target library: its 1-based export ordinal,
/// its textual name (or the `[NONAME]` sentinel when the export carries no
/// name), and its raw entry-point address, which is informational only and
/// appears solely in diagnostic comments of the generated artifacts.
#[derive(Debug, Clone)]
pub struct ModuleExportResult {
    pub name: String,
    pub ordinal: u32,
    pub code: u64,
}

/// The mathematical model of one export record.
pub struct ExportModel {
    pub name: Seq<char>,
    pub ordinal: u32,
    pub code: u64,
}

impl View for ModuleExportResult {
    type V = ExportModel;

    open spec fn view(&self) -> ExportModel {
        ExportModel { name: self.name@, ordinal: self.ordinal, code: self.code }
    }
}

/// Builds one export record from the parts an export walk hands over:
/// when the walk found no name for the export, the record carries the
/// `[NONAME]` sentinel instead.
pub fn record_of_export(ordinal: u32, name: Option<String>, code: u64) -> (r: ModuleExportResult)
    ensures
        r@.ordinal == ordinal,
        r@.code == code,
        name matches Some(s) ==> r@.name == s@,
        name is None ==> r@.name == "[NONAME]"@,
{
    match name {
        Option::Some(s) => ModuleExportResult { name: s, ordinal, code },
        Option::None => ModuleExportResult { name: "[NONAME]".to_owned(), ordinal, code },
    }
}

/// A catalog is well formed when every ordinal is at least 1, so that the
/// zero-based slot `ordinal - 1` exists.
pub open spec fn catalog_wf(es: Seq<ExportModel>) -> bool {
    forall|i: int| 0 <= i < es.len() ==> (#[trigger] es[i]).ordinal >= 1
}

/// No two records of the catalog share an ordinal.
pub open spec fn distinct_ordinals(es: Seq<ExportModel>) -> bool {
    forall|i: int, j: int|
        0 <= i < es.len() && 0 <= j < es.len() && i != j ==> (#[trigger] es[i]).ordinal != (
        #[trigger] es[j]).ordinal
}

/// The models of a sequence of export records.
pub open spec fn models_of(es: Seq<ModuleExportResult>) -> Seq<ExportModel> {
    es.map_values(|e: ModuleExportResult| e@)
}

} // verus!
