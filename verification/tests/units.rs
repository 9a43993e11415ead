use mach_object::align::{align_pad, align_to_align_exp, is_power_of_two, pow2_u64};
use mach_object::artifact::{Architecture, Data, DataType, DefinedDecl, Definition, SectionKind};
use mach_object::constants;
use mach_object::object::{classify, find_pad, Bucket, CpuType};
use mach_object::reloc::{RelocationBuilder, RelocationInfo};
use mach_object::section::SectionBuilder;
use mach_object::segment::custom_section_name;
use mach_object::symbol::SymbolBuilder;
use mach_object::symtab::{SymbolTable, SymbolType};

fn defined(section: usize, absolute: u64, relative: u64, global: bool) -> SymbolType {
    SymbolType::Defined {
        section,
        absolute_offset: absolute,
        segment_relative_offset: relative,
        global,
    }
}

#[test]
fn alignment_exponent_of_every_power_of_two() {
    for k in 0..64u64 {
        assert_eq!(align_to_align_exp(1u64 << k), k);
        assert_eq!(pow2_u64(k), 1u64 << k);
        assert!(is_power_of_two(1u64 << k));
    }
    assert!(!is_power_of_two(0));
    assert!(!is_power_of_two(3));
    assert!(!is_power_of_two(12));
    assert!(!is_power_of_two(u64::MAX));
}

#[test]
fn padding_completes_a_multiple() {
    assert_eq!(align_pad(0, 4), 0);
    assert_eq!(align_pad(1, 4), 15);
    assert_eq!(align_pad(4, 2), 0);
    assert_eq!(align_pad(5, 3), 3);
    assert_eq!(align_pad(16, 4), 0);
    assert_eq!(align_pad(17, 0), 0);
    assert_eq!(align_pad(u64::MAX, 63), 1);
}

#[test]
fn constants_agree_with_the_format() {
    assert_eq!(constants::N_EXT, goblin::mach::symbols::N_EXT);
    assert_eq!(constants::N_SECT, goblin::mach::symbols::N_SECT);
    assert_eq!(constants::N_UNDF, goblin::mach::symbols::N_UNDF);
    assert_eq!(constants::NO_SECT, goblin::mach::symbols::NO_SECT);
    assert_eq!(constants::S_REGULAR, goblin::mach::constants::S_REGULAR);
    assert_eq!(constants::S_ZEROFILL, goblin::mach::constants::S_ZEROFILL);
    assert_eq!(constants::S_CSTRING_LITERALS, goblin::mach::constants::S_CSTRING_LITERALS);
    assert_eq!(constants::S_ATTR_PURE_INSTRUCTIONS, goblin::mach::constants::S_ATTR_PURE_INSTRUCTIONS);
    assert_eq!(constants::S_ATTR_SOME_INSTRUCTIONS, goblin::mach::constants::S_ATTR_SOME_INSTRUCTIONS);
    assert_eq!(constants::S_ATTR_DEBUG, goblin::mach::constants::S_ATTR_DEBUG);
    assert_eq!(constants::MH_OBJECT, goblin::mach::header::MH_OBJECT);
    assert_eq!(
        constants::MH_SUBSECTIONS_VIA_SYMBOLS,
        goblin::mach::header::MH_SUBSECTIONS_VIA_SYMBOLS
    );
    assert_eq!(constants::CPU_TYPE_X86, goblin::mach::constants::cputype::CPU_TYPE_X86);
    assert_eq!(constants::CPU_TYPE_X86_64, goblin::mach::constants::cputype::CPU_TYPE_X86_64);
    assert_eq!(constants::CPU_TYPE_ARM, goblin::mach::constants::cputype::CPU_TYPE_ARM);
    assert_eq!(constants::CPU_TYPE_ARM64, goblin::mach::constants::cputype::CPU_TYPE_ARM64);
    assert_eq!(constants::CPU_TYPE_SPARC, goblin::mach::constants::cputype::CPU_TYPE_SPARC);
    assert_eq!(constants::CPU_TYPE_POWERPC, goblin::mach::constants::cputype::CPU_TYPE_POWERPC);
    assert_eq!(constants::CPU_TYPE_POWERPC64, goblin::mach::constants::cputype::CPU_TYPE_POWERPC64);
    assert_eq!(constants::R_ABS, goblin::mach::relocation::R_ABS);
    assert_eq!(
        constants::X86_64_RELOC_UNSIGNED,
        goblin::mach::relocation::X86_64_RELOC_UNSIGNED
    );
    assert_eq!(constants::X86_64_RELOC_SIGNED, goblin::mach::relocation::X86_64_RELOC_SIGNED);
    assert_eq!(constants::X86_64_RELOC_BRANCH, goblin::mach::relocation::X86_64_RELOC_BRANCH);
    assert_eq!(
        constants::X86_64_RELOC_GOT_LOAD,
        goblin::mach::relocation::X86_64_RELOC_GOT_LOAD
    );
    assert_eq!(
        constants::SIZEOF_RELOCATION_INFO as usize,
        goblin::mach::relocation::SIZEOF_RELOCATION_INFO
    );
    assert_eq!(
        constants::SIZEOF_SYMTAB_COMMAND as usize,
        goblin::mach::load_command::SIZEOF_SYMTAB_COMMAND
    );
}

#[test]
fn cpu_types_of_architectures() {
    assert_eq!(CpuType::from(Architecture::X86_64).0, 0x0100_0007);
    assert_eq!(CpuType::from(Architecture::I386).0, 7);
    assert_eq!(CpuType::from(Architecture::I586).0, 7);
    assert_eq!(CpuType::from(Architecture::I686).0, 7);
    assert_eq!(CpuType::from(Architecture::Aarch64).0, 0x0100_000c);
    assert_eq!(CpuType::from(Architecture::Arm).0, 12);
    assert_eq!(CpuType::from(Architecture::Sparc).0, 14);
    assert_eq!(CpuType::from(Architecture::Powerpc).0, 18);
    assert_eq!(CpuType::from(Architecture::Powerpc64).0, 0x0100_0012);
    assert_eq!(CpuType::from(Architecture::Powerpc64le).0, 0x0100_0012);
    assert_eq!(CpuType::from(Architecture::Unknown).0, 0);
}

#[test]
fn symbol_builder_sets_each_field() {
    let symbol = SymbolBuilder::new(7);
    assert_eq!(symbol.name, 7);
    assert_eq!(symbol.section, None);
    assert!(!symbol.global);
    assert!(!symbol.import);
    assert_eq!(symbol.offset, 0);
    assert_eq!(symbol.get_segment_relative_offset(), 0);
    let symbol = symbol.section(2).global(true).offset(40).relative_offset(8);
    assert_eq!(symbol.section, Some(2));
    assert!(symbol.global);
    assert_eq!(symbol.offset, 40);
    assert_eq!(symbol.get_segment_relative_offset(), 8);
    assert!(symbol.import().import);
}

#[test]
fn defined_symbols_carry_their_section() {
    let global = SymbolBuilder::new(1).global(true).offset(40).section(2).create();
    assert_eq!(global.n_strx, 1);
    assert_eq!(global.n_type, 0x0f);
    assert_eq!(global.n_sect, 3);
    assert_eq!(global.n_desc, 0);
    assert_eq!(global.n_value, 40);
    let local = SymbolBuilder::new(9).offset(5).section(0).create();
    assert_eq!(local.n_type, 0x0e);
    assert_eq!(local.n_sect, 1);
    assert_eq!(local.n_value, 5);
}

#[test]
fn imports_are_external_without_section() {
    let import = SymbolBuilder::new(3).global(true).offset(99).section(1).import().create();
    assert_eq!(import.n_strx, 3);
    assert_eq!(import.n_type, 0x01);
    assert_eq!(import.n_sect, 0);
    assert_eq!(import.n_value, 0);
}

#[test]
fn relocation_bits_are_packed() {
    let pc_relative = RelocationBuilder::new(5, 0x10, 2).create();
    assert_eq!(pc_relative, RelocationInfo { r_address: 0x10, r_info: 0x2d00_0005 });
    let absolute = RelocationBuilder::new(5, 0x10, 0).absolute().create();
    assert_eq!(absolute, RelocationInfo { r_address: 0x10, r_info: 0x0e00_0005 });
    let four = RelocationBuilder::new(1, 4, 0).absolute().size(4).create();
    assert_eq!(four.r_info, 0x0c00_0001);
    let eight = RelocationBuilder::new(1, 4, 3).size(8).create();
    assert_eq!(eight.r_info, 0x3f00_0001);
    assert!(RelocationBuilder::supports_size(0));
    assert!(RelocationBuilder::supports_size(4));
    assert!(RelocationBuilder::supports_size(8));
    assert!(!RelocationBuilder::supports_size(2));
}

#[test]
fn section_header_threads_both_offsets() {
    let mut section =
        SectionBuilder::new("__text".to_string(), "__TEXT".to_string(), 48).addr(16).align(4);
    assert_eq!(section.flags, 0);
    assert_eq!(section.offset, 0);
    section = section.offset(32).flags(0x400);
    let mut section_offset = 448;
    let mut relocation_offset = 1000;
    let header = section.create(&mut section_offset, &mut relocation_offset);
    assert_eq!(header.sectname, "__text");
    assert_eq!(header.segname, "__TEXT");
    assert_eq!(header.addr, 16);
    assert_eq!(header.size, 48);
    assert_eq!(header.offset, 448);
    assert_eq!(header.align, 4);
    assert_eq!(header.flags, 0x400);
    assert_eq!(header.nreloc, 0);
    assert_eq!(header.reloff, 0);
    assert_eq!(section_offset, 496);
    assert_eq!(relocation_offset, 1000);

    section.relocations.push(RelocationInfo { r_address: 0, r_info: 0 });
    section.relocations.push(RelocationInfo { r_address: 4, r_info: 0 });
    let header = section.create(&mut section_offset, &mut relocation_offset);
    assert_eq!(header.offset, 496);
    assert_eq!(header.nreloc, 2);
    assert_eq!(header.reloff, 1000);
    assert_eq!(section_offset, 544);
    assert_eq!(relocation_offset, 1016);
}

#[test]
fn symbol_table_starts_with_the_empty_name() {
    let table = SymbolTable::new();
    assert_eq!(table.len(), 0);
    assert_eq!(table.sizeof_strtable(), 1);
    assert_eq!(table.index(""), None);
    assert_eq!(table.offset(""), None);
    assert_eq!(table.index("main"), None);
    assert_eq!(table.symbol_at(0), None);
    let mut out = vec![0xff];
    table.write_strtable(&mut out);
    assert_eq!(out, vec![0xff, 0]);
}

#[test]
fn insertion_assigns_ordinals_and_string_offsets() {
    let mut table = SymbolTable::new();
    table.insert("main", defined(0, 10, 2, true));
    table.insert("ext", SymbolType::Undefined);
    assert_eq!(table.len(), 2);
    assert_eq!(table.sizeof_strtable(), 1 + 6 + 5);
    assert_eq!(table.index("main"), Some(0));
    assert_eq!(table.index("ext"), Some(1));
    assert_eq!(table.offset("main"), Some(2));
    assert_eq!(table.offset("ext"), Some(0));
    let main = table.symbol_at(0).unwrap();
    assert_eq!(main.name, 1);
    assert_eq!(main.section, Some(0));
    assert_eq!(main.offset, 10);
    assert!(main.global && !main.import);
    let ext = table.symbol_at(1).unwrap();
    assert_eq!(ext.name, 7);
    assert_eq!(ext.section, None);
    assert!(ext.global && ext.import);
    assert_eq!(table.symbol_at(2), None);
    let mut out = Vec::new();
    table.write_strtable(&mut out);
    assert_eq!(out, b"\0_main\0_ext\0".to_vec());
    assert_eq!(out.len() as u64, table.sizeof_strtable());
}

#[test]
fn inserting_a_name_again_changes_nothing() {
    let mut table = SymbolTable::new();
    table.insert("a", defined(0, 0, 0, false));
    table.insert("b", defined(1, 8, 8, true));
    table.insert("a", defined(3, 99, 77, true));
    table.insert("b", SymbolType::Undefined);
    table.insert("", SymbolType::Undefined);
    assert_eq!(table.len(), 2);
    assert_eq!(table.sizeof_strtable(), 1 + 3 + 3);
    assert_eq!(table.index("a"), Some(0));
    assert_eq!(table.offset("a"), Some(0));
    assert_eq!(table.symbol_at(0).unwrap().section, Some(0));
    assert_eq!(table.index("b"), Some(1));
    assert_eq!(table.offset("b"), Some(8));
    assert!(!table.symbol_at(1).unwrap().import);
}

#[test]
fn names_count_their_bytes() {
    let mut table = SymbolTable::new();
    table.insert("é", SymbolType::Undefined);
    assert_eq!(table.sizeof_strtable(), 1 + 2 + 2);
    let mut out = Vec::new();
    table.write_strtable(&mut out);
    assert_eq!(out, vec![0, 0x5f, 0xc3, 0xa9, 0]);
}

#[test]
fn debug_sections_are_renamed() {
    assert_eq!(custom_section_name(".debug_info"), "__debug_info");
    assert_eq!(custom_section_name(".debug"), "__debug");
    assert_eq!(custom_section_name(".debu"), ".debu");
    assert_eq!(custom_section_name("__custom"), "__custom");
    assert_eq!(custom_section_name("x.debug_info"), "x.debug_info");
}

#[test]
fn definitions_fall_into_their_buckets() {
    let make = |decl, data| Definition { name: "n".to_string(), decl, data, symbols: Vec::new() };
    let function = DefinedDecl::Function { global: false, align: None };
    let bytes = DefinedDecl::Data { global: false, datatype: DataType::Bytes, align: None };
    let string = DefinedDecl::Data { global: false, datatype: DataType::String, align: None };
    let section = DefinedDecl::Section { kind: SectionKind::Data, align: None };
    assert_eq!(classify(&make(function, Data::Blob(vec![1]))), Bucket::Code);
    assert_eq!(classify(&make(bytes, Data::Blob(vec![1]))), Bucket::Data);
    assert_eq!(classify(&make(bytes, Data::ZeroInit(4))), Bucket::Bss);
    assert_eq!(classify(&make(string, Data::ZeroInit(4))), Bucket::Bss);
    assert_eq!(classify(&make(string, Data::Blob(vec![0]))), Bucket::Cstring);
    assert_eq!(classify(&make(section, Data::Blob(vec![0]))), Bucket::Custom);
}

#[test]
fn padding_is_found_under_the_last_entry_of_a_name() {
    let pads = vec![("f".to_string(), 3), ("g".to_string(), 0), ("f".to_string(), 7)];
    assert_eq!(find_pad(&pads, &"f".to_string()), Some(7));
    assert_eq!(find_pad(&pads, &"g".to_string()), Some(0));
    assert_eq!(find_pad(&pads, &"h".to_string()), None);
}

fn plain_target() -> mach_object::artifact::Target {
    mach_object::artifact::Target {
        architecture: Architecture::X86_64,
        is_64: true,
        little_endian: true,
    }
}

fn one_definition(def: Definition) -> mach_object::artifact::Artifact {
    mach_object::artifact::Artifact {
        target: plain_target(),
        definitions: vec![def],
        imports: Vec::new(),
        links: Vec::new(),
    }
}

fn function_aligned(align: Option<u64>) -> Definition {
    Definition {
        name: "f".to_string(),
        decl: DefinedDecl::Function { global: true, align },
        data: Data::Blob(vec![0xc3]),
        symbols: Vec::new(),
    }
}

#[test]
fn unsupported_artifacts_are_not_written() {
    let good = one_definition(function_aligned(Some(16)));
    assert!(mach_object::support::supported(&good));
    assert_eq!(
        mach_object::support::write_supported(&good),
        Some(mach_object::object::to_bytes(&good))
    );

    let odd = one_definition(function_aligned(Some(12)));
    assert!(!mach_object::support::supported(&odd));
    assert_eq!(mach_object::support::write_supported(&odd), None);
    assert!(!mach_object::support::supported(&one_definition(function_aligned(Some(0)))));

    let mut foreign = one_definition(function_aligned(None));
    foreign.target.architecture = Architecture::Other;
    assert!(!mach_object::support::supported(&foreign));
    assert_eq!(mach_object::support::write_supported(&foreign), None);

    let section = |name: &str| Definition {
        name: name.to_string(),
        decl: DefinedDecl::Section { kind: SectionKind::Debug, align: None },
        data: Data::Blob(vec![0]),
        symbols: Vec::new(),
    };
    assert!(mach_object::support::supported(&one_definition(section(".debug_abbrevia"))));
    assert!(!mach_object::support::supported(&one_definition(section(".debug_abbreviat"))));
    assert!(mach_object::support::supported(&one_definition(section("sixteen_bytes_ok"))));
    assert!(!mach_object::support::supported(&one_definition(section("seventeen_bytes__"))));
}

#[test]
fn links_that_cannot_be_lowered_are_told_apart() {
    let function = mach_object::artifact::Decl::Defined(DefinedDecl::Function {
        global: true,
        align: None,
    });
    let bytes = mach_object::artifact::Decl::Defined(DefinedDecl::Data {
        global: true,
        datatype: DataType::Bytes,
        align: None,
    });
    let debug = mach_object::artifact::Decl::Defined(DefinedDecl::Section {
        kind: SectionKind::Debug,
        align: None,
    });
    let custom = mach_object::artifact::Decl::Defined(DefinedDecl::Section {
        kind: SectionKind::Data,
        align: None,
    });
    let import = mach_object::artifact::Decl::Import(mach_object::artifact::ImportKind::Function);
    let link = |from, to, reloc| mach_object::artifact::Link {
        from: mach_object::artifact::LinkEnd { name: "a".to_string(), decl: from },
        to: mach_object::artifact::LinkEnd { name: "b".to_string(), decl: to },
        at: 0,
        reloc,
    };
    let auto = mach_object::artifact::Reloc::Auto;
    let supports = mach_object::support::link_is_supported;
    assert!(supports(&link(function, function, auto)));
    assert!(supports(&link(function, import, auto)));
    assert!(supports(&link(bytes, import, auto)));
    assert!(!supports(&link(debug, function, auto)));
    assert!(!supports(&link(function, debug, auto)));
    assert!(!supports(&link(custom, function, auto)));
    assert!(!supports(&link(function, custom, auto)));
    assert!(!supports(&link(import, function, auto)));
    let raw = |reloc, addend| mach_object::artifact::Reloc::Raw { reloc, addend };
    assert!(supports(&link(function, function, raw(255, 0))));
    assert!(!supports(&link(function, function, raw(256, 0))));
    assert!(!supports(&link(function, function, raw(1, 4))));
    let sized = |size| mach_object::artifact::Reloc::Debug { size, addend: 0 };
    assert!(supports(&link(debug, function, sized(0))));
    assert!(supports(&link(debug, function, sized(4))));
    assert!(supports(&link(debug, function, sized(8))));
    assert!(!supports(&link(debug, function, sized(2))));
    assert!(supports(&link(debug, debug, sized(2))));
}

#[test]
fn relocation_kinds_follow_the_declarations() {
    let function = mach_object::artifact::Decl::Defined(DefinedDecl::Function {
        global: true,
        align: None,
    });
    let bytes = mach_object::artifact::Decl::Defined(DefinedDecl::Data {
        global: true,
        datatype: DataType::Bytes,
        align: None,
    });
    let import_function =
        mach_object::artifact::Decl::Import(mach_object::artifact::ImportKind::Function);
    let import_data = mach_object::artifact::Decl::Import(mach_object::artifact::ImportKind::Data);
    let link = |from, to, reloc| mach_object::artifact::Link {
        from: mach_object::artifact::LinkEnd { name: "a".to_string(), decl: from },
        to: mach_object::artifact::LinkEnd { name: "b".to_string(), decl: to },
        at: 0,
        reloc,
    };
    let auto = mach_object::artifact::Reloc::Auto;
    let kind = mach_object::lower::reloc_kind;
    assert_eq!(kind(&link(bytes, bytes, auto)), (true, 0));
    assert_eq!(kind(&link(bytes, import_function, auto)), (true, 0));
    assert_eq!(kind(&link(function, function, auto)), (false, 2));
    assert_eq!(kind(&link(function, import_function, auto)), (false, 2));
    assert_eq!(kind(&link(function, bytes, auto)), (false, 1));
    assert_eq!(kind(&link(function, import_data, auto)), (false, 3));
    let raw = |reloc| mach_object::artifact::Reloc::Raw { reloc, addend: 0 };
    assert_eq!(kind(&link(function, function, raw(0))), (true, 0));
    assert_eq!(kind(&link(function, function, raw(9))), (false, 9));
}

#[test]
fn default_table_holds_nothing() {
    let table = SymbolTable::default();
    assert_eq!(table.len(), 0);
    assert_eq!(table.symbol_at(0), None);
}
