use dll_proxy::dll_proxy_builder::DllProxyBuilder;
use dll_proxy::export::{record_of_export, ModuleExportResult};

#[test]
fn record_of_export_keeps_name() {
    let r = record_of_export(7, Some("CreateFoo".to_string()), 0x4000);
    assert_eq!(r.name, "CreateFoo");
    assert_eq!(r.ordinal, 7);
    assert_eq!(r.code, 0x4000);
}

#[test]
fn record_of_export_without_name_gets_sentinel() {
    let r = record_of_export(9, None, 0);
    assert_eq!(r.name, "[NONAME]");
    assert_eq!(r.ordinal, 9);
}

#[test]
fn sentinel_rendered_verbatim_everywhere() {
    let catalog = vec![ModuleExportResult {
        name: "[NONAME]".to_string(),
        ordinal: 2,
        code: 0x1234,
    }];
    let b = DllProxyBuilder::new("sample".to_string(), catalog, false);
    assert!(b.generate_cc_assembler().contains("PUBLIC sample_[NONAME]\n"));
    assert!(b.generate_cc_assembler().contains("sample_[NONAME] PROC\n"));
    assert!(b
        .generate_cc_definitions()
        .contains("  [NONAME]   = sample_[NONAME]   @2   PRIVATE\n"));
    assert!(b
        .generate_cc_source()
        .contains("sample_functions[1] = GetProcAddress(sample_module, \"[NONAME]\");\n"));
}

#[test]
fn catalog_order_is_kept_not_ordinal_order() {
    let catalog = vec![
        ModuleExportResult { name: "Last".to_string(), ordinal: 3, code: 0 },
        ModuleExportResult { name: "First".to_string(), ordinal: 1, code: 0 },
    ];
    let b = DllProxyBuilder::new("sample".to_string(), catalog, false);
    let defs = b.generate_cc_definitions();
    let last_at = defs.find("Last").unwrap();
    let first_at = defs.find("First").unwrap();
    assert!(last_at < first_at);
}
