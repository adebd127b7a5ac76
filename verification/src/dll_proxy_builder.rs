use vstd::prelude::*;

use crate::export::{catalog_wf, distinct_ordinals, models_of, ExportModel, ModuleExportResult};
use crate::numerals::{dec_text, hex_text_padded, lemma_dec_text_injective, push_dec, push_hex_padded};
use crate::packing::{decode_hex_join, hex_join, lemma_hex_join_push, lemma_hex_join_round_trip, push_byte_literal};

verus! {

/// Everything of the embedded-binary artifact that precedes the byte
/// array's contents.
pub open spec fn binary_header_prefix(n: Seq<char>) -> Seq<char> {
    "#pragma once\n#include <cstdint>\n\nuint8_t "@ + n + "_binary[] = {"@
}

/// The text of the optional embedded-binary artifact: a byte-array literal
/// holding the original library's raw file contents, rendered byte by byte
/// in hexadecimal.
pub open spec fn binary_header_text(n: Seq<char>, bytes: Seq<u8>) -> Seq<char> {
    binary_header_prefix(n) + hex_join(bytes) + "};"@
}

/// The zero-based resolution-array slot of an export record: `ordinal - 1`
/// (meaningful when the catalog is well formed, i.e. `ordinal >= 1`).
pub open spec fn slot_of(e: ExportModel) -> nat {
    (e.ordinal - 1) as nat
}

/// One `PUBLIC` declaration of the assembly artifact, exposing the
/// internal forwarder symbol `<binary_name>_<export name>`.
pub open spec fn public_line(n: Seq<char>, e: ExportModel) -> Seq<char> {
    "PUBLIC "@ + n + "_"@ + e.name + "\n"@
}

/// The concatenated `PUBLIC` declarations for a catalog, in catalog order.
pub open spec fn public_lines(n: Seq<char>, es: Seq<ExportModel>) -> Seq<char>
    decreases es.len(),
{
    if es.len() == 0 {
        Seq::empty()
    } else {
        public_line(n, es[0]) + public_lines(n, es.drop_first())
    }
}

proof fn lemma_public_lines_push(n: Seq<char>, es: Seq<ExportModel>, e: ExportModel)
    ensures
        public_lines(n, es.push(e)) == public_lines(n, es) + public_line(n, e),
    decreases es.len(),
{
    if es.len() == 0 {
        assert(es.push(e)[0] == e);
        assert(es.push(e).drop_first() =~= Seq::<ExportModel>::empty());
        assert(public_lines(n, Seq::<ExportModel>::empty()) == Seq::<char>::empty());
        assert(public_lines(n, es) == Seq::<char>::empty());
        assert(public_lines(n, es.push(e)) == public_line(n, e) + public_lines(
            n,
            es.push(e).drop_first(),
        ));
        assert(public_lines(n, es.push(e)) =~= public_lines(n, es) + public_line(n, e));
    } else {
        assert(es.push(e)[0] == es[0]);
        assert(es.push(e).drop_first() =~= es.drop_first().push(e));
        lemma_public_lines_push(n, es.drop_first(), e);
        assert(public_lines(n, es.push(e)) =~= public_lines(n, es) + public_line(n, e));
    }
}

/// One forwarding stub of the assembly artifact: a provenance comment with
/// the original entry-point address and ordinal, and an unconditional
/// indirect jump through the shared pointer array at slot `ordinal - 1`.
pub open spec fn stub_block(n: Seq<char>, e: ExportModel) -> Seq<char> {
    "; ["@ + hex_text_padded(e.code as nat, 16) + "] "@ + n + ":"@ + dec_text(e.ordinal as nat)
        + "\n"@ + n + "_"@ + e.name + " PROC\n"@ + "  jmp QWORD PTR ["@ + n + "_functions + "@
        + dec_text(slot_of(e)) + "*8]\n"@ + n + "_"@ + e.name + " ENDP\n"@ + "\n"@
}

/// The concatenated forwarding stubs for a catalog, in catalog order.
pub open spec fn stub_blocks(n: Seq<char>, es: Seq<ExportModel>) -> Seq<char>
    decreases es.len(),
{
    if es.len() == 0 {
        Seq::empty()
    } else {
        stub_block(n, es[0]) + stub_blocks(n, es.drop_first())
    }
}

proof fn lemma_stub_blocks_push(n: Seq<char>, es: Seq<ExportModel>, e: ExportModel)
    ensures
        stub_blocks(n, es.push(e)) == stub_blocks(n, es) + stub_block(n, e),
    decreases es.len(),
{
    if es.len() == 0 {
        assert(es.push(e)[0] == e);
        assert(es.push(e).drop_first() =~= Seq::<ExportModel>::empty());
        assert(stub_blocks(n, Seq::<ExportModel>::empty()) == Seq::<char>::empty());
        assert(stub_blocks(n, es) == Seq::<char>::empty());
        assert(stub_blocks(n, es.push(e)) == stub_block(n, e) + stub_blocks(
            n,
            es.push(e).drop_first(),
        ));
        assert(stub_blocks(n, es.push(e)) =~= stub_blocks(n, es) + stub_block(n, e));
    } else {
        assert(es.push(e)[0] == es[0]);
        assert(es.push(e).drop_first() =~= es.drop_first().push(e));
        lemma_stub_blocks_push(n, es.drop_first(), e);
        assert(stub_blocks(n, es.push(e)) =~= stub_blocks(n, es) + stub_block(n, e));
    }
}

/// The text of the assembly forwarder artifact.
pub open spec fn assembler_text(n: Seq<char>, es: Seq<ExportModel>) -> Seq<char> {
    public_lines(n, es) + "\nEXTERN "@ + n + "_functions:QWORD\n\n.code\n\n"@ + stub_blocks(n, es)
        + "END"@
}

/// The includes that depend on the loading mode: the embedded-binary
/// header and file streams when packing, the system-path lookup otherwise.
pub open spec fn source_pack_includes(n: Seq<char>, pack: bool) -> Seq<char> {
    if pack {
        "\n#include <fstream>\n#include \""@ + n + "_binary.h\"\n"@
    } else {
        "#include <shlobj.h>\n"@
    }
}

/// The include block of the implementation artifact.
pub open spec fn source_includes(n: Seq<char>, pack: bool) -> Seq<char> {
    "#include \""@ + n + ".h\"\n\n#include <windows.h>\n#include <strsafe.h>\n"@
        + source_pack_includes(n, pack) + "\n"@
}

/// The declaration of the shared function-pointer array, sized to exactly
/// `count` slots: the catalog's cardinality, computed once and referenced
/// by name everywhere else.
pub open spec fn source_array_decl(n: Seq<char>, count: nat) -> Seq<char> {
    "namespace\n{\n  const size_t "@ + n + "_size = "@ + dec_text(count)
        + ";\n  extern \"C\" FARPROC "@ + n + "_functions["@ + n
        + "_size]; // prevents compiler mangling\n  FARPROC "@ + n + "_functions["@ + n
        + "_size];\n}\n            "@
}

/// The opening of the initialization routine.
pub open spec fn source_init_open(n: Seq<char>) -> Seq<char> {
    "namespace "@ + n + "\n{\n  // static\n  bool "@ + n
        + "_initialize::initialize()\n  {\n    char "@ + n + "_path[MAX_PATH];\n"@
}

/// The path-construction block: when packing, the embedded bytes are
/// written out to a fixed filename and loaded from there; otherwise the
/// original is loaded from the system directory under its own name.
pub open spec fn source_load_block(n: Seq<char>, pack: bool) -> Seq<char> {
    if pack {
        "\n    if (!SUCCEEDED(StringCchPrintfA("@ + n + "_path, MAX_PATH, \"%s%s\", "@ + n
            + "_path, \""@ + n
            + "_data.bin\")))\n    {\n      return false;\n    }\n\n    std::ofstream "@ + n
            + "_data_binary("@ + n + "_path, std::ios::binary | std::ios::trunc);\n    "@ + n
            + "_data_binary.write(reinterpret_cast<const char*>("@ + n + "_binary), sizeof("@ + n
            + "_binary));\n    "@ + n + "_data_binary.close();\n"@
    } else {
        "\n    if (!SUCCEEDED(SHGetFolderPathA(0, CSIDL_SYSTEM, 0, 0, "@ + n
            + "_path)))\n    {\n      return false;\n    }\n\n    if (!SUCCEEDED(StringCchPrintfA("@
            + n + "_path, MAX_PATH, \"%s%s\", "@ + n + "_path, \"\\\\"@ + n
            + ".dll\")))\n    {\n      return false;\n    }\n"@
    }
}

/// The block that loads the original library and fails on a null handle.
pub open spec fn source_load_module(n: Seq<char>) -> Seq<char> {
    "\n    HMODULE "@ + n + "_module = LoadLibraryA("@ + n + "_path);\n    if (!"@ + n
        + "_module)\n    {\n      return false;\n    }\n\n"@
}

/// One resolution statement: stores the address resolved by name at slot
/// `ordinal - 1` of the shared pointer array.
pub open spec fn resolve_line(n: Seq<char>, e: ExportModel) -> Seq<char> {
    "    "@ + n + "_functions["@ + dec_text(slot_of(e)) + "] = GetProcAddress("@ + n
        + "_module, \""@ + e.name + "\");\n"@
}

/// The concatenated resolution statements for a catalog, in catalog order.
pub open spec fn resolve_lines(n: Seq<char>, es: Seq<ExportModel>) -> Seq<char>
    decreases es.len(),
{
    if es.len() == 0 {
        Seq::empty()
    } else {
        resolve_line(n, es[0]) + resolve_lines(n, es.drop_first())
    }
}

proof fn lemma_resolve_lines_push(n: Seq<char>, es: Seq<ExportModel>, e: ExportModel)
    ensures
        resolve_lines(n, es.push(e)) == resolve_lines(n, es) + resolve_line(n, e),
    decreases es.len(),
{
    if es.len() == 0 {
        assert(es.push(e)[0] == e);
        assert(es.push(e).drop_first() =~= Seq::<ExportModel>::empty());
        assert(resolve_lines(n, Seq::<ExportModel>::empty()) == Seq::<char>::empty());
        assert(resolve_lines(n, es) == Seq::<char>::empty());
        assert(resolve_lines(n, es.push(e)) == resolve_line(n, e) + resolve_lines(
            n,
            es.push(e).drop_first(),
        ));
        assert(resolve_lines(n, es.push(e)) =~= resolve_lines(n, es) + resolve_line(n, e));
    } else {
        assert(es.push(e)[0] == es[0]);
        assert(es.push(e).drop_first() =~= es.drop_first().push(e));
        lemma_resolve_lines_push(n, es.drop_first(), e);
        assert(resolve_lines(n, es.push(e)) =~= resolve_lines(n, es) + resolve_line(n, e));
    }
}

/// The all-or-nothing check that closes the initialization routine: if any
/// slot is still null, initialization reports failure as a whole.
pub open spec fn source_check_tail(n: Seq<char>) -> Seq<char> {
    "\n    for (int i = 0; i < "@ + n + "_size; ++i)\n    {\n        if (!"@ + n
        + "_functions[i])\n        {\n            return false;\n        }\n    }\n\n    return true;\n"@
        + "  }\n}\n"@
}

/// The text of the implementation artifact.
pub open spec fn source_text(n: Seq<char>, es: Seq<ExportModel>, pack: bool) -> Seq<char> {
    source_includes(n, pack) + source_array_decl(n, es.len()) + "\n"@ + source_init_open(n)
        + source_load_block(n, pack) + source_load_module(n) + resolve_lines(n, es)
        + source_check_tail(n)
}

fn push_source_includes(res: &mut String, name: &str, pack: bool)
    ensures
        final(res)@ == old(res)@ + source_includes(name@, pack),
{
    res.append("#include \"");
    res.append(name);
    res.append(".h\"\n\n#include <windows.h>\n#include <strsafe.h>\n");
    let ghost head = res@;
    if pack {
        res.append("\n#include <fstream>\n#include \"");
        res.append(name);
        res.append("_binary.h\"\n");
        proof {
            assert(res@ =~= head + source_pack_includes(name@, pack));
        }
    } else {
        res.append("#include <shlobj.h>\n");
        proof {
            assert(res@ =~= head + source_pack_includes(name@, pack));
        }
    }
    res.append("\n");
    proof {
        assert(res@ =~= old(res)@ + source_includes(name@, pack));
    }
}

fn push_source_array_decl(res: &mut String, name: &str, count: usize)
    ensures
        final(res)@ == old(res)@ + source_array_decl(name@, count as nat),
{
    res.append("namespace\n{\n  const size_t ");
    res.append(name);
    res.append("_size = ");
    push_dec(res, count as u64);
    res.append(";\n  extern \"C\" FARPROC ");
    res.append(name);
    res.append("_functions[");
    res.append(name);
    res.append("_size]; // prevents compiler mangling\n  FARPROC ");
    res.append(name);
    res.append("_functions[");
    res.append(name);
    res.append("_size];\n}\n            ");
    proof {
        assert(res@ =~= old(res)@ + source_array_decl(name@, count as nat));
    }
}

fn push_source_init_open(res: &mut String, name: &str)
    ensures
        final(res)@ == old(res)@ + source_init_open(name@),
{
    res.append("namespace ");
    res.append(name);
    res.append("\n{\n  // static\n  bool ");
    res.append(name);
    res.append("_initialize::initialize()\n  {\n    char ");
    res.append(name);
    res.append("_path[MAX_PATH];\n");
    proof {
        assert(res@ =~= old(res)@ + source_init_open(name@));
    }
}

fn push_source_load_block(res: &mut String, name: &str, pack: bool)
    ensures
        final(res)@ == old(res)@ + source_load_block(name@, pack),
{
    if pack {
        res.append("\n    if (!SUCCEEDED(StringCchPrintfA(");
        res.append(name);
        res.append("_path, MAX_PATH, \"%s%s\", ");
        res.append(name);
        res.append("_path, \"");
        res.append(name);
        res.append("_data.bin\")))\n    {\n      return false;\n    }\n\n    std::ofstream ");
        res.append(name);
        res.append("_data_binary(");
        res.append(name);
        res.append("_path, std::ios::binary | std::ios::trunc);\n    ");
        res.append(name);
        res.append("_data_binary.write(reinterpret_cast<const char*>(");
        res.append(name);
        res.append("_binary), sizeof(");
        res.append(name);
        res.append("_binary));\n    ");
        res.append(name);
        res.append("_data_binary.close();\n");
        proof {
            assert(res@ =~= old(res)@ + source_load_block(name@, pack));
        }
    } else {
        res.append("\n    if (!SUCCEEDED(SHGetFolderPathA(0, CSIDL_SYSTEM, 0, 0, ");
        res.append(name);
        res.append(
            "_path)))\n    {\n      return false;\n    }\n\n    if (!SUCCEEDED(StringCchPrintfA(",
        );
        res.append(name);
        res.append("_path, MAX_PATH, \"%s%s\", ");
        res.append(name);
        res.append("_path, \"\\\\");
        res.append(name);
        res.append(".dll\")))\n    {\n      return false;\n    }\n");
        proof {
            assert(res@ =~= old(res)@ + source_load_block(name@, pack));
        }
    }
}

fn push_source_load_module(res: &mut String, name: &str)
    ensures
        final(res)@ == old(res)@ + source_load_module(name@),
{
    res.append("\n    HMODULE ");
    res.append(name);
    res.append("_module = LoadLibraryA(");
    res.append(name);
    res.append("_path);\n    if (!");
    res.append(name);
    res.append("_module)\n    {\n      return false;\n    }\n\n");
    proof {
        assert(res@ =~= old(res)@ + source_load_module(name@));
    }
}

fn push_resolve_lines(res: &mut String, name: &str, exports: &Vec<ModuleExportResult>)
    requires
        catalog_wf(models_of(exports@)),
    ensures
        final(res)@ == old(res)@ + resolve_lines(name@, models_of(exports@)),
{
    let ghost cat = models_of(exports@);
    proof {
        assert(res@ =~= old(res)@ + resolve_lines(name@, cat.subrange(0, 0)));
    }
    let mut i: usize = 0;
    while i < exports.len()
        invariant
            i <= exports.len(),
            cat == models_of(exports@),
            cat.len() == exports.len(),
            catalog_wf(cat),
            res@ == old(res)@ + resolve_lines(name@, cat.subrange(0, i as int)),
        decreases exports.len() - i,
    {
        let e = &exports[i];
        let ghost before = res@;
        proof {
            assert(cat[i as int] == e@);
            assert(cat[i as int].ordinal >= 1);
        }
        res.append("    ");
        res.append(name);
        res.append("_functions[");
        push_dec(res, (e.ordinal - 1) as u64);
        res.append("] = GetProcAddress(");
        res.append(name);
        res.append("_module, \"");
        res.append(e.name.as_str());
        res.append("\");\n");
        proof {
            assert(res@ =~= before + resolve_line(name@, cat[i as int]));
            lemma_resolve_lines_push(name@, cat.subrange(0, i as int), cat[i as int]);
            assert(cat.subrange(0, i as int).push(cat[i as int]) =~= cat.subrange(
                0,
                i as int + 1,
            ));
        }
        i += 1;
    }
    proof {
        assert(cat.subrange(0, cat.len() as int) =~= cat);
    }
}

fn push_source_check_tail(res: &mut String, name: &str)
    ensures
        final(res)@ == old(res)@ + source_check_tail(name@),
{
    res.append("\n    for (int i = 0; i < ");
    res.append(name);
    res.append("_size; ++i)\n    {\n        if (!");
    res.append(name);
    res.append(
        "_functions[i])\n        {\n            return false;\n        }\n    }\n\n    return true;\n",
    );
    res.append("  }\n}\n");
    proof {
        assert(res@ =~= old(res)@ + source_check_tail(name@));
    }
}

/// One entry of the module-definition artifact, determined by the original
/// export name and ordinal alone: the original name is exposed as the
/// public export, forwarded to the internal `<binary_name>_<name>` symbol,
/// at the original ordinal, marked private to the module.
pub open spec fn def_entry_text(n: Seq<char>, name: Seq<char>, ordinal: u32) -> Seq<char> {
    "  "@ + name + "   = "@ + n + "_"@ + name + "   @"@ + dec_text(ordinal as nat)
        + "   PRIVATE\n"@
}

/// The module-definition entry for one export record.
pub open spec fn def_line(n: Seq<char>, e: ExportModel) -> Seq<char> {
    def_entry_text(n, e.name, e.ordinal)
}

/// The concatenated module-definition entries for a catalog, in catalog
/// order.
pub open spec fn def_lines(n: Seq<char>, es: Seq<ExportModel>) -> Seq<char>
    decreases es.len(),
{
    if es.len() == 0 {
        Seq::empty()
    } else {
        def_line(n, es[0]) + def_lines(n, es.drop_first())
    }
}

proof fn lemma_def_lines_push(n: Seq<char>, es: Seq<ExportModel>, e: ExportModel)
    ensures
        def_lines(n, es.push(e)) == def_lines(n, es) + def_line(n, e),
    decreases es.len(),
{
    if es.len() == 0 {
        assert(es.push(e)[0] == e);
        assert(es.push(e).drop_first() =~= Seq::<ExportModel>::empty());
        assert(def_lines(n, Seq::<ExportModel>::empty()) == Seq::<char>::empty());
        assert(def_lines(n, es) == Seq::<char>::empty());
        assert(def_lines(n, es.push(e)) == def_line(n, e) + def_lines(
            n,
            es.push(e).drop_first(),
        ));
        assert(def_lines(n, es.push(e)) =~= def_lines(n, es) + def_line(n, e));
    } else {
        assert(es.push(e)[0] == es[0]);
        assert(es.push(e).drop_first() =~= es.drop_first().push(e));
        lemma_def_lines_push(n, es.drop_first(), e);
        assert(def_lines(n, es.push(e)) =~= def_lines(n, es) + def_line(n, e));
    }
}

/// The text of the module-definition artifact.
pub open spec fn definitions_text(n: Seq<char>, es: Seq<ExportModel>) -> Seq<char> {
    "LIBRARY \""@ + n + "\"\n\nEXPORTS\n"@ + def_lines(n, es)
}

/// The text of the header artifact: the declaration of the one
/// initialization entry point, wrapped in a namespace named after the
/// proxied binary.
pub open spec fn header_text(n: Seq<char>) -> Seq<char> {
    "#pragma once\n\nnamespace "@ + n + "\n{\n  class "@ + n
        + "_initialize\n  {\n    public:\n      static bool initialize();\n  };\n}"@
}

/// The text of the loader-entry-point stub artifact: a `DllMain` that
/// disables per-thread notifications and runs the initialization routine on
/// process attach; detach is a no-op.
pub open spec fn dll_main_text(n: Seq<char>) -> Seq<char> {
    "#include \""@ + n
        + ".h\"\n\n#include <windows.h>\n\nBOOL WINAPI DllMain(_In_ HINSTANCE hinstDLL, _In_ DWORD fdwReason, _In_ LPVOID lpvReserved)\n{\n  UNREFERENCED_PARAMETER(lpvReserved);\n\n  switch (fdwReason)\n  {\n    case DLL_PROCESS_ATTACH:\n      DisableThreadLibraryCalls(hinstDLL);\n      if ("@
        + n + "::"@ + n
        + "_initialize::initialize()) {}\n        break;\n\n    case DLL_PROCESS_DETACH:\n        break;\n  }\n  return TRUE;\n}"@
}

/// Renders the header artifact for a binary of the given base name.
pub fn generate_cc_header_from_stub(binary_name: &str) -> (res: String)
    ensures
        res@ == header_text(binary_name@),
{
    let mut res = String::new();
    res.append("#pragma once\n\nnamespace ");
    res.append(binary_name);
    res.append("\n{\n  class ");
    res.append(binary_name);
    res.append("_initialize\n  {\n    public:\n      static bool initialize();\n  };\n}");
    proof {
        assert(res@ =~= header_text(binary_name@));
    }
    res
}

/// Renders the loader-entry-point stub artifact for a binary of the given
/// base name.
pub fn generate_cc_dll_main_from_stub(binary_name: &str) -> (res: String)
    ensures
        res@ == dll_main_text(binary_name@),
{
    let mut res = String::new();
    res.append("#include \"");
    res.append(binary_name);
    res.append(
        ".h\"\n\n#include <windows.h>\n\nBOOL WINAPI DllMain(_In_ HINSTANCE hinstDLL, _In_ DWORD fdwReason, _In_ LPVOID lpvReserved)\n{\n  UNREFERENCED_PARAMETER(lpvReserved);\n\n  switch (fdwReason)\n  {\n    case DLL_PROCESS_ATTACH:\n      DisableThreadLibraryCalls(hinstDLL);\n      if (",
    );
    res.append(binary_name);
    res.append("::");
    res.append(binary_name);
    res.append(
        "_initialize::initialize()) {}\n        break;\n\n    case DLL_PROCESS_DETACH:\n        break;\n  }\n  return TRUE;\n}",
    );
    proof {
        assert(res@ =~= dll_main_text(binary_name@));
    }
    res
}

/// The generation target: the proxied binary's base name, the export
/// catalog, and whether the original binary's bytes are packed into a
/// generated header rather than loaded from the system directory.
pub struct DllProxyBuilder {
    binary_name: String,
    binary_exports: Vec<ModuleExportResult>,
    pack_original_binary: bool,
}

/// The mathematical model of a builder.
pub struct ProxyModel {
    pub binary_name: Seq<char>,
    pub exports: Seq<ExportModel>,
    pub pack_original_binary: bool,
}

impl View for DllProxyBuilder {
    type V = ProxyModel;

    closed spec fn view(&self) -> ProxyModel {
        ProxyModel {
            binary_name: self.binary_name@,
            exports: models_of(self.binary_exports@),
            pack_original_binary: self.pack_original_binary,
        }
    }
}

impl DllProxyBuilder {
    /// The builder is well formed when every catalog ordinal is at least 1.
    pub open spec fn wf(&self) -> bool {
        catalog_wf(self@.exports)
    }

    pub fn new(
        binary_name: String,
        binary_exports: Vec<ModuleExportResult>,
        pack_original_binary: bool,
    ) -> (res: Self)
        requires
            catalog_wf(models_of(binary_exports@)),
        ensures
            res@.binary_name == binary_name@,
            res@.exports == models_of(binary_exports@),
            res@.pack_original_binary == pack_original_binary,
            res.wf(),
    {
        let dll_proxy_builder = DllProxyBuilder {
            binary_name: binary_name,
            binary_exports: binary_exports,
            pack_original_binary: pack_original_binary,
        };

        dll_proxy_builder
    }

    pub fn binary_name(&self) -> (res: &str)
        ensures
            res@ == self@.binary_name,
    {
        self.binary_name.as_str()
    }

    /// Renders the header artifact.
    pub fn generate_cc_header(&self) -> (res: String)
        ensures
            res@ == header_text(self@.binary_name),
    {
        generate_cc_header_from_stub(self.binary_name.as_str())
    }

    /// Renders the loader-entry-point stub artifact.
    pub fn generate_cc_dll_main(&self) -> (res: String)
        ensures
            res@ == dll_main_text(self@.binary_name),
    {
        generate_cc_dll_main_from_stub(self.binary_name.as_str())
    }

    /// Renders the optional embedded-binary artifact from the original
    /// library's raw file contents.
    pub fn generate_cc_binary_header(&self, binary_bytes: &[u8]) -> (res: String)
        ensures
            res@ == binary_header_text(self@.binary_name, binary_bytes@),
    {
        let ghost n = self@.binary_name;
        let ghost bs = binary_bytes@;
        let mut res = String::new();
        res.append("#pragma once\n#include <cstdint>\n\nuint8_t ");
        res.append(self.binary_name.as_str());
        res.append("_binary[] = {");
        proof {
            assert(res@ =~= binary_header_prefix(n) + hex_join(bs.subrange(0, 0)));
        }
        let mut k: usize = 0;
        while k < binary_bytes.len()
            invariant
                k <= binary_bytes.len(),
                n == self@.binary_name,
                bs == binary_bytes@,
                res@ == binary_header_prefix(n) + hex_join(bs.subrange(0, k as int)),
            decreases binary_bytes.len() - k,
        {
            let ghost before = res@;
            if k > 0 {
                res.append(", ");
            }
            push_byte_literal(&mut res, binary_bytes[k]);
            proof {
                lemma_hex_join_push(bs.subrange(0, k as int), bs[k as int]);
                assert(bs.subrange(0, k as int).push(bs[k as int]) =~= bs.subrange(
                    0,
                    k as int + 1,
                ));
                assert(res@ =~= binary_header_prefix(n) + hex_join(bs.subrange(0, k as int + 1)));
            }
            k += 1;
        }
        proof {
            assert(bs.subrange(0, bs.len() as int) =~= bs);
        }
        res.append("};");
        proof {
            assert(res@ =~= binary_header_text(n, bs));
        }
        res
    }

    /// Renders the module-definition artifact: one entry per catalog
    /// record, in catalog order.
    pub fn generate_cc_definitions(&self) -> (res: String)
        ensures
            res@ == definitions_text(self@.binary_name, self@.exports),
    {
        let ghost n = self@.binary_name;
        let ghost cat = self@.exports;
        let mut res = String::new();
        res.append("LIBRARY \"");
        res.append(self.binary_name.as_str());
        res.append("\"\n\nEXPORTS\n");
        proof {
            assert(res@ =~= "LIBRARY \""@ + n + "\"\n\nEXPORTS\n"@ + def_lines(
                n,
                cat.subrange(0, 0),
            ));
        }
        let mut i: usize = 0;
        while i < self.binary_exports.len()
            invariant
                i <= self.binary_exports.len(),
                n == self@.binary_name,
                cat == self@.exports,
                cat.len() == self.binary_exports.len(),
                res@ == "LIBRARY \""@ + n + "\"\n\nEXPORTS\n"@ + def_lines(
                    n,
                    cat.subrange(0, i as int),
                ),
            decreases self.binary_exports.len() - i,
        {
            let e = &self.binary_exports[i];
            let ghost before = res@;
            res.append("  ");
            res.append(e.name.as_str());
            res.append("   = ");
            res.append(self.binary_name.as_str());
            res.append("_");
            res.append(e.name.as_str());
            res.append("   @");
            push_dec(&mut res, e.ordinal as u64);
            res.append("   PRIVATE\n");
            proof {
                assert(cat[i as int] == e@);
                assert(res@ =~= before + def_line(n, cat[i as int]));
                lemma_def_lines_push(n, cat.subrange(0, i as int), cat[i as int]);
                assert(cat.subrange(0, i as int).push(cat[i as int]) =~= cat.subrange(
                    0,
                    i as int + 1,
                ));
            }
            i += 1;
        }
        proof {
            assert(cat.subrange(0, cat.len() as int) =~= cat);
        }
        res
    }

    /// Renders the assembly forwarder artifact: one `PUBLIC` declaration
    /// and one tail-jump stub per catalog record, both in catalog order,
    /// every stub indexing the shared pointer array at slot `ordinal - 1`.
    #[verifier::rlimit(100)]
    pub fn generate_cc_assembler(&self) -> (res: String)
        requires
            self.wf(),
        ensures
            res@ == assembler_text(self@.binary_name, self@.exports),
    {
        let ghost n = self@.binary_name;
        let ghost cat = self@.exports;
        let mut res = String::new();
        proof {
            assert(res@ =~= public_lines(n, cat.subrange(0, 0)));
        }

        let mut i: usize = 0;
        while i < self.binary_exports.len()
            invariant
                i <= self.binary_exports.len(),
                n == self@.binary_name,
                cat == self@.exports,
                cat.len() == self.binary_exports.len(),
                res@ == public_lines(n, cat.subrange(0, i as int)),
            decreases self.binary_exports.len() - i,
        {
            let e = &self.binary_exports[i];
            let ghost before = res@;
            res.append("PUBLIC ");
            res.append(self.binary_name.as_str());
            res.append("_");
            res.append(e.name.as_str());
            res.append("\n");
            proof {
                assert(cat[i as int] == e@);
                assert(res@ =~= before + public_line(n, cat[i as int]));
                lemma_public_lines_push(n, cat.subrange(0, i as int), cat[i as int]);
                assert(cat.subrange(0, i as int).push(cat[i as int]) =~= cat.subrange(
                    0,
                    i as int + 1,
                ));
            }
            i += 1;
        }
        proof {
            assert(cat.subrange(0, cat.len() as int) =~= cat);
        }

        res.append("\nEXTERN ");
        res.append(self.binary_name.as_str());
        res.append("_functions:QWORD\n\n.code\n\n");
        proof {
            assert(res@ =~= public_lines(n, cat) + "\nEXTERN "@ + n
                + "_functions:QWORD\n\n.code\n\n"@);
        }
        let ghost mid = res@;

        let mut j: usize = 0;
        while j < self.binary_exports.len()
            invariant
                j <= self.binary_exports.len(),
                n == self@.binary_name,
                cat == self@.exports,
                cat.len() == self.binary_exports.len(),
                self.wf(),
                mid == public_lines(n, cat) + "\nEXTERN "@ + n + "_functions:QWORD\n\n.code\n\n"@,
                res@ == mid + stub_blocks(n, cat.subrange(0, j as int)),
            decreases self.binary_exports.len() - j,
        {
            let e = &self.binary_exports[j];
            let ghost before = res@;
            proof {
                assert(cat[j as int] == e@);
                assert(cat[j as int].ordinal >= 1);
            }
            res.append("; [");
            push_hex_padded(&mut res, e.code, 16);
            res.append("] ");
            res.append(self.binary_name.as_str());
            res.append(":");
            push_dec(&mut res, e.ordinal as u64);
            res.append("\n");
            res.append(self.binary_name.as_str());
            res.append("_");
            res.append(e.name.as_str());
            res.append(" PROC\n");
            res.append("  jmp QWORD PTR [");
            res.append(self.binary_name.as_str());
            res.append("_functions + ");
            push_dec(&mut res, (e.ordinal - 1) as u64);
            res.append("*8]\n");
            res.append(self.binary_name.as_str());
            res.append("_");
            res.append(e.name.as_str());
            res.append(" ENDP\n");
            res.append("\n");
            proof {
                assert(res@ =~= before + stub_block(n, cat[j as int]));
                lemma_stub_blocks_push(n, cat.subrange(0, j as int), cat[j as int]);
                assert(cat.subrange(0, j as int).push(cat[j as int]) =~= cat.subrange(
                    0,
                    j as int + 1,
                ));
            }
            j += 1;
        }
        proof {
            assert(cat.subrange(0, cat.len() as int) =~= cat);
        }

        res.append("END");
        proof {
            assert(res@ =~= assembler_text(n, cat));
        }
        res
    }

    /// Renders the implementation artifact: the shared pointer array sized
    /// to the catalog's cardinality, and the initialization routine that
    /// loads the original library, resolves every export by name into slot
    /// `ordinal - 1`, and fails as a whole if any slot stays unresolved.
    pub fn generate_cc_source(&self) -> (res: String)
        requires
            self.wf(),
        ensures
            res@ == source_text(self@.binary_name, self@.exports, self@.pack_original_binary),
    {
        let ghost n = self@.binary_name;
        let ghost cat = self@.exports;
        let ghost pack = self@.pack_original_binary;
        let mut res = String::new();
        push_source_includes(&mut res, self.binary_name.as_str(), self.pack_original_binary);
        proof {
            assert(res@ =~= source_includes(n, pack));
        }
        push_source_array_decl(&mut res, self.binary_name.as_str(), self.binary_exports.len());
        res.append("\n");
        push_source_init_open(&mut res, self.binary_name.as_str());
        push_source_load_block(&mut res, self.binary_name.as_str(), self.pack_original_binary);
        push_source_load_module(&mut res, self.binary_name.as_str());
        push_resolve_lines(&mut res, self.binary_name.as_str(), &self.binary_exports);
        push_source_check_tail(&mut res, self.binary_name.as_str());
        proof {
            assert(res@ =~= source_text(n, cat, pack));
        }
        res
    }
}

/// Slot bijection: every catalog record's ordinal `k` is mapped to the
/// zero-based slot `k - 1` by the one `slot_of` formula, which both the
/// implementation artifact's resolution statements and the assembly
/// artifact's jump offsets render through the one `dec_text` formula; for a
/// catalog of distinct ordinals the numeric slots, and therefore the slot
/// indices as rendered in both artifacts, are pairwise distinct.
pub proof fn lemma_slot_bijection(n: Seq<char>, es: Seq<ExportModel>)
    requires
        catalog_wf(es),
        distinct_ordinals(es),
    ensures
        forall|i: int| 0 <= i < es.len() ==> #[trigger] slot_of(es[i]) + 1 == es[i].ordinal,
        forall|i: int, j: int|
            0 <= i < es.len() && 0 <= j < es.len() && i != j ==> slot_of(es[i]) != slot_of(es[j]),
        forall|i: int, j: int|
            0 <= i < es.len() && 0 <= j < es.len() && i != j ==> dec_text(slot_of(es[i]))
                != dec_text(slot_of(es[j])),
{
    assert forall|i: int, j: int|
        0 <= i < es.len() && 0 <= j < es.len() && i != j implies dec_text(slot_of(es[i]))
        != dec_text(slot_of(es[j])) by {
        if dec_text(slot_of(es[i])) == dec_text(slot_of(es[j])) {
            lemma_dec_text_injective(slot_of(es[i]), slot_of(es[j]));
        }
    }
}

/// The (original name, ordinal) pairs of a catalog, in catalog order.
pub open spec fn catalog_pairs(es: Seq<ExportModel>) -> Seq<(Seq<char>, u32)> {
    es.map_values(|e: ExportModel| (e.name, e.ordinal))
}

/// Export symmetry: the module-definition artifact holds exactly one entry
/// per catalog record, in catalog order; entry `i` is rendered from
/// exactly the pair (name, ordinal) of catalog record `i`, and the set of
/// pairs named by the artifact equals the set of pairs of the catalog.
pub proof fn lemma_export_symmetry(n: Seq<char>, es: Seq<ExportModel>)
    ensures
        catalog_pairs(es).len() == es.len(),
        forall|i: int|
            0 <= i < es.len() ==> #[trigger] catalog_pairs(es)[i] == (es[i].name, es[i].ordinal),
        forall|i: int|
            0 <= i < es.len() ==> #[trigger] def_line(n, es[i]) == def_entry_text(
                n,
                catalog_pairs(es)[i].0,
                catalog_pairs(es)[i].1,
            ),
        forall|name: Seq<char>, ordinal: u32|
            #[trigger] catalog_pairs(es).contains((name, ordinal)) <==> exists|i: int|
                0 <= i < es.len() && (#[trigger] es[i]).name == name && es[i].ordinal == ordinal,
{
    assert forall|name: Seq<char>, ordinal: u32|
        #[trigger] catalog_pairs(es).contains((name, ordinal)) implies exists|i: int|
        0 <= i < es.len() && (#[trigger] es[i]).name == name && es[i].ordinal == ordinal by {
        let i = choose|i: int| 0 <= i < es.len() && catalog_pairs(es)[i] == (name, ordinal);
        assert(es[i].name == name && es[i].ordinal == ordinal);
    }
    assert forall|name: Seq<char>, ordinal: u32|
        (exists|i: int|
            0 <= i < es.len() && (#[trigger] es[i]).name == name && es[i].ordinal
                == ordinal) implies #[trigger] catalog_pairs(es).contains((name, ordinal)) by {
        let i = choose|i: int|
            0 <= i < es.len() && (#[trigger] es[i]).name == name && es[i].ordinal == ordinal;
        assert(catalog_pairs(es)[i] == (name, ordinal));
    }
}

/// Sentinel passthrough: an export whose name is the `[NONAME]` sentinel
/// keeps that literal name, verbatim, in every artifact position that
/// names the export: the assembly `PUBLIC` declaration, the assembly stub
/// label, the module-definition entry, and the resolution statement of the
/// implementation artifact.
pub proof fn lemma_sentinel_passthrough(n: Seq<char>, e: ExportModel)
    requires
        e.name == "[NONAME]"@,
    ensures
        public_line(n, e).subrange(
            ("PUBLIC "@ + n + "_"@).len() as int,
            (("PUBLIC "@ + n + "_"@).len() + "[NONAME]"@.len()) as int,
        ) == "[NONAME]"@,
        stub_block(n, e).subrange(
            ("; ["@ + hex_text_padded(e.code as nat, 16) + "] "@ + n + ":"@ + dec_text(
                e.ordinal as nat,
            ) + "\n"@ + n + "_"@).len() as int,
            (("; ["@ + hex_text_padded(e.code as nat, 16) + "] "@ + n + ":"@ + dec_text(
                e.ordinal as nat,
            ) + "\n"@ + n + "_"@).len() + "[NONAME]"@.len()) as int,
        ) == "[NONAME]"@,
        def_line(n, e).subrange(("  "@).len() as int, ("  "@.len() + "[NONAME]"@.len()) as int)
            == "[NONAME]"@,
        resolve_line(n, e).subrange(
            ("    "@ + n + "_functions["@ + dec_text(slot_of(e)) + "] = GetProcAddress("@ + n
                + "_module, \""@).len() as int,
            (("    "@ + n + "_functions["@ + dec_text(slot_of(e)) + "] = GetProcAddress("@ + n
                + "_module, \""@).len() + "[NONAME]"@.len()) as int,
        ) == "[NONAME]"@,
{
    assert(public_line(n, e).subrange(
        ("PUBLIC "@ + n + "_"@).len() as int,
        (("PUBLIC "@ + n + "_"@).len() + "[NONAME]"@.len()) as int,
    ) =~= "[NONAME]"@);
    assert(stub_block(n, e).subrange(
        ("; ["@ + hex_text_padded(e.code as nat, 16) + "] "@ + n + ":"@ + dec_text(
            e.ordinal as nat,
        ) + "\n"@ + n + "_"@).len() as int,
        (("; ["@ + hex_text_padded(e.code as nat, 16) + "] "@ + n + ":"@ + dec_text(
            e.ordinal as nat,
        ) + "\n"@ + n + "_"@).len() + "[NONAME]"@.len()) as int,
    ) =~= "[NONAME]"@);
    assert(def_line(n, e).subrange(("  "@).len() as int, ("  "@.len() + "[NONAME]"@.len()) as int)
        =~= "[NONAME]"@);
    assert(resolve_line(n, e).subrange(
        ("    "@ + n + "_functions["@ + dec_text(slot_of(e)) + "] = GetProcAddress("@ + n
            + "_module, \""@).len() as int,
        (("    "@ + n + "_functions["@ + dec_text(slot_of(e)) + "] = GetProcAddress("@ + n
            + "_module, \""@).len() + "[NONAME]"@.len()) as int,
    ) =~= "[NONAME]"@);
}

/// Packed round trip at the artifact level: the embedded-binary artifact
/// embeds the joined hexadecimal rendering of the original file's bytes
/// directly after its fixed prefix, and reading that rendering back,
/// literal by literal, yields exactly the original bytes.
pub proof fn lemma_packed_round_trip(n: Seq<char>, bytes: Seq<u8>)
    ensures
        binary_header_text(n, bytes).subrange(
            binary_header_prefix(n).len() as int,
            (binary_header_prefix(n).len() + hex_join(bytes).len()) as int,
        ) == hex_join(bytes),
        decode_hex_join(hex_join(bytes), bytes.len()) == bytes,
{
    lemma_hex_join_round_trip(bytes);
    assert(binary_header_text(n, bytes).subrange(
        binary_header_prefix(n).len() as int,
        (binary_header_prefix(n).len() + hex_join(bytes).len()) as int,
    ) =~= hex_join(bytes));
}

} // verus!
