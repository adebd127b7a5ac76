use dll_proxy::dll_proxy_builder::{
    generate_cc_dll_main_from_stub, generate_cc_header_from_stub, DllProxyBuilder,
};
use dll_proxy::export::ModuleExportResult;

fn export(ordinal: u32, name: &str, code: u64) -> ModuleExportResult {
    ModuleExportResult { name: name.to_string(), ordinal, code }
}

fn scenario_catalog() -> Vec<ModuleExportResult> {
    vec![export(1, "Foo", 0x1000), export(3, "Bar", 0x2000), export(2, "[NONAME]", 0x3000)]
}

#[test]
fn header_exact_text() {
    let b = DllProxyBuilder::new("sample".to_string(), Vec::new(), false);
    let mut expected = String::new();
    expected.push_str("#pragma once\n\nnamespace sample\n{\n  class sample_initialize\n  {\n");
    expected.push_str("    public:\n      static bool initialize();\n  };\n}");
    assert_eq!(b.generate_cc_header(), expected);
}

#[test]
fn header_stub_matches_method() {
    let b = DllProxyBuilder::new("xinput".to_string(), Vec::new(), true);
    assert_eq!(generate_cc_header_from_stub("xinput"), b.generate_cc_header());
}

#[test]
fn dll_main_exact_text() {
    let b = DllProxyBuilder::new("sample".to_string(), Vec::new(), false);
    let mut expected = String::new();
    expected.push_str("#include \"sample.h\"\n\n#include <windows.h>\n\n");
    expected.push_str(
        "BOOL WINAPI DllMain(_In_ HINSTANCE hinstDLL, _In_ DWORD fdwReason, _In_ LPVOID lpvReserved)\n",
    );
    expected.push_str("{\n  UNREFERENCED_PARAMETER(lpvReserved);\n\n  switch (fdwReason)\n  {\n");
    expected.push_str("    case DLL_PROCESS_ATTACH:\n      DisableThreadLibraryCalls(hinstDLL);\n");
    expected.push_str("      if (sample::sample_initialize::initialize()) {}\n        break;\n\n");
    expected.push_str("    case DLL_PROCESS_DETACH:\n        break;\n  }\n  return TRUE;\n}");
    assert_eq!(b.generate_cc_dll_main(), expected);
}

#[test]
fn dll_main_stub_matches_method() {
    let b = DllProxyBuilder::new("xinput".to_string(), Vec::new(), true);
    assert_eq!(generate_cc_dll_main_from_stub("xinput"), b.generate_cc_dll_main());
}

#[test]
fn definitions_empty_catalog() {
    let b = DllProxyBuilder::new("sample".to_string(), Vec::new(), false);
    assert_eq!(b.generate_cc_definitions(), "LIBRARY \"sample\"\n\nEXPORTS\n");
}

#[test]
fn definitions_scenario_order_preserving() {
    let b = DllProxyBuilder::new("sample".to_string(), scenario_catalog(), false);
    let mut expected = String::new();
    expected.push_str("LIBRARY \"sample\"\n\nEXPORTS\n");
    expected.push_str("  Foo   = sample_Foo   @1   PRIVATE\n");
    expected.push_str("  Bar   = sample_Bar   @3   PRIVATE\n");
    expected.push_str("  [NONAME]   = sample_[NONAME]   @2   PRIVATE\n");
    assert_eq!(b.generate_cc_definitions(), expected);
}

#[test]
fn assembler_empty_catalog() {
    let b = DllProxyBuilder::new("sample".to_string(), Vec::new(), false);
    assert_eq!(b.generate_cc_assembler(), "\nEXTERN sample_functions:QWORD\n\n.code\n\nEND");
}

#[test]
fn assembler_scenario_slots() {
    let b = DllProxyBuilder::new("sample".to_string(), scenario_catalog(), false);
    let mut expected = String::new();
    expected.push_str("PUBLIC sample_Foo\nPUBLIC sample_Bar\nPUBLIC sample_[NONAME]\n");
    expected.push_str("\nEXTERN sample_functions:QWORD\n\n.code\n\n");
    expected.push_str("; [0000000000001000] sample:1\nsample_Foo PROC\n");
    expected.push_str("  jmp QWORD PTR [sample_functions + 0*8]\nsample_Foo ENDP\n\n");
    expected.push_str("; [0000000000002000] sample:3\nsample_Bar PROC\n");
    expected.push_str("  jmp QWORD PTR [sample_functions + 2*8]\nsample_Bar ENDP\n\n");
    expected.push_str("; [0000000000003000] sample:2\nsample_[NONAME] PROC\n");
    expected.push_str("  jmp QWORD PTR [sample_functions + 1*8]\nsample_[NONAME] ENDP\n\n");
    expected.push_str("END");
    assert_eq!(b.generate_cc_assembler(), expected);
}

#[test]
fn assembler_address_zero_padded_hex() {
    let b =
        DllProxyBuilder::new("sample".to_string(), vec![export(1, "Foo", 0xDEADBEEF)], false);
    let listing = b.generate_cc_assembler();
    assert!(listing.contains("; [00000000DEADBEEF] sample:1\n"));
}

#[test]
fn source_unpacked_exact_text() {
    let b = DllProxyBuilder::new("sample".to_string(), vec![export(1, "Foo", 0x1000)], false);
    let mut expected = String::new();
    expected.push_str("#include \"sample.h\"\n\n#include <windows.h>\n#include <strsafe.h>\n");
    expected.push_str("#include <shlobj.h>\n\n");
    expected.push_str("namespace\n{\n  const size_t sample_size = 1;\n");
    expected.push_str(
        "  extern \"C\" FARPROC sample_functions[sample_size]; // prevents compiler mangling\n",
    );
    expected.push_str("  FARPROC sample_functions[sample_size];\n}\n            \n");
    expected.push_str("namespace sample\n{\n  // static\n  bool sample_initialize::initialize()\n");
    expected.push_str("  {\n    char sample_path[MAX_PATH];\n");
    expected.push_str("\n    if (!SUCCEEDED(SHGetFolderPathA(0, CSIDL_SYSTEM, 0, 0, sample_path)))\n");
    expected.push_str("    {\n      return false;\n    }\n\n");
    expected.push_str(
        "    if (!SUCCEEDED(StringCchPrintfA(sample_path, MAX_PATH, \"%s%s\", sample_path, \"\\\\sample.dll\")))\n",
    );
    expected.push_str("    {\n      return false;\n    }\n");
    expected.push_str("\n    HMODULE sample_module = LoadLibraryA(sample_path);\n");
    expected.push_str("    if (!sample_module)\n    {\n      return false;\n    }\n\n");
    expected.push_str("    sample_functions[0] = GetProcAddress(sample_module, \"Foo\");\n");
    expected.push_str("\n    for (int i = 0; i < sample_size; ++i)\n    {\n");
    expected.push_str("        if (!sample_functions[i])\n        {\n            return false;\n");
    expected.push_str("        }\n    }\n\n    return true;\n");
    expected.push_str("  }\n}\n");
    assert_eq!(b.generate_cc_source(), expected);
}

#[test]
fn source_packed_exact_text() {
    let b = DllProxyBuilder::new("sample".to_string(), vec![export(1, "Foo", 0x1000)], true);
    let mut expected = String::new();
    expected.push_str("#include \"sample.h\"\n\n#include <windows.h>\n#include <strsafe.h>\n");
    expected.push_str("\n#include <fstream>\n#include \"sample_binary.h\"\n\n");
    expected.push_str("namespace\n{\n  const size_t sample_size = 1;\n");
    expected.push_str(
        "  extern \"C\" FARPROC sample_functions[sample_size]; // prevents compiler mangling\n",
    );
    expected.push_str("  FARPROC sample_functions[sample_size];\n}\n            \n");
    expected.push_str("namespace sample\n{\n  // static\n  bool sample_initialize::initialize()\n");
    expected.push_str("  {\n    char sample_path[MAX_PATH];\n");
    expected.push_str(
        "\n    if (!SUCCEEDED(StringCchPrintfA(sample_path, MAX_PATH, \"%s%s\", sample_path, \"sample_data.bin\")))\n",
    );
    expected.push_str("    {\n      return false;\n    }\n\n");
    expected.push_str(
        "    std::ofstream sample_data_binary(sample_path, std::ios::binary | std::ios::trunc);\n",
    );
    expected.push_str(
        "    sample_data_binary.write(reinterpret_cast<const char*>(sample_binary), sizeof(sample_binary));\n",
    );
    expected.push_str("    sample_data_binary.close();\n");
    expected.push_str("\n    HMODULE sample_module = LoadLibraryA(sample_path);\n");
    expected.push_str("    if (!sample_module)\n    {\n      return false;\n    }\n\n");
    expected.push_str("    sample_functions[0] = GetProcAddress(sample_module, \"Foo\");\n");
    expected.push_str("\n    for (int i = 0; i < sample_size; ++i)\n    {\n");
    expected.push_str("        if (!sample_functions[i])\n        {\n            return false;\n");
    expected.push_str("        }\n    }\n\n    return true;\n");
    expected.push_str("  }\n}\n");
    assert_eq!(b.generate_cc_source(), expected);
}

#[test]
fn source_scenario_array_sized_to_catalog() {
    let b = DllProxyBuilder::new("sample".to_string(), scenario_catalog(), false);
    let src = b.generate_cc_source();
    assert!(src.contains("const size_t sample_size = 3;"));
    assert!(src.contains("sample_functions[0] = GetProcAddress(sample_module, \"Foo\");\n"));
    assert!(src.contains("sample_functions[2] = GetProcAddress(sample_module, \"Bar\");\n"));
    assert!(src.contains("sample_functions[1] = GetProcAddress(sample_module, \"[NONAME]\");\n"));
}

#[test]
fn binary_name_returns_base_name() {
    let b = DllProxyBuilder::new("xinput1_3".to_string(), Vec::new(), false);
    assert_eq!(b.binary_name(), "xinput1_3");
}

#[test]
fn large_ordinal_rendered_in_decimal() {
    let b = DllProxyBuilder::new("sample".to_string(), vec![export(4000, "Far", 0)], false);
    assert!(b.generate_cc_definitions().contains("  Far   = sample_Far   @4000   PRIVATE\n"));
    assert!(b.generate_cc_assembler().contains("  jmp QWORD PTR [sample_functions + 3999*8]\n"));
}
