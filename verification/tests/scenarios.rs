use goblin::mach::MachO;
use mach_object::artifact::{
    Architecture, Artifact, Data, DataType, Decl, DefinedDecl, Definition, ImportKind, Link,
    LinkEnd, Reloc, SectionKind, Target,
};
use mach_object::constants::{
    MH_OBJECT, MH_SUBSECTIONS_VIA_SYMBOLS, N_EXT, N_SECT, S_ATTR_DEBUG, S_CSTRING_LITERALS,
    S_ZEROFILL, X86_64_RELOC_BRANCH, X86_64_RELOC_UNSIGNED,
};
use mach_object::object::{to_bytes, Mach};

fn x86_64() -> Target {
    Target { architecture: Architecture::X86_64, is_64: true, little_endian: true }
}

fn function(name: &str, bytes: &[u8], align: Option<u64>) -> Definition {
    Definition {
        name: name.to_string(),
        decl: DefinedDecl::Function { global: true, align },
        data: Data::Blob(bytes.to_vec()),
        symbols: Vec::new(),
    }
}

fn data(name: &str, payload: Data, datatype: DataType, align: Option<u64>) -> Definition {
    Definition {
        name: name.to_string(),
        decl: DefinedDecl::Data { global: false, datatype, align },
        data: payload,
        symbols: Vec::new(),
    }
}

fn artifact(definitions: Vec<Definition>) -> Artifact {
    Artifact { target: x86_64(), definitions, imports: Vec::new(), links: Vec::new() }
}

fn end(name: &str, decl: Decl) -> LinkEnd {
    LinkEnd { name: name.to_string(), decl }
}

fn section_sizes(macho: &MachO) -> Vec<(String, u64, u32, u32)> {
    let mut found = Vec::new();
    for segment in macho.segments.iter() {
        for (section, _) in segment.sections().unwrap() {
            found.push((
                section.name().unwrap().to_string(),
                section.size,
                section.align,
                section.flags,
            ));
        }
    }
    found
}

#[test]
fn empty_artifact_has_four_empty_sections() {
    let bytes = to_bytes(&artifact(Vec::new()));
    assert_eq!(bytes.len(), 32 + 72 + 4 * 80 + 24 + 1 + 1);
    let macho = MachO::parse(&bytes, 0).unwrap();
    assert_eq!(macho.header.cputype, goblin::mach::cputype::CPU_TYPE_X86_64);
    assert_eq!(macho.header.filetype, MH_OBJECT);
    assert_eq!(macho.header.flags, MH_SUBSECTIONS_VIA_SYMBOLS);
    assert_eq!(macho.header.ncmds, 2);
    assert_eq!(macho.header.sizeofcmds, 72 + 4 * 80 + 24);
    assert_eq!(macho.header.cpusubtype, 3);
    let sections = section_sizes(&macho);
    assert_eq!(sections.len(), 4);
    assert_eq!(sections[0].0, "__text");
    assert_eq!(sections[1].0, "__data");
    assert_eq!(sections[2].0, "__cstring");
    assert_eq!(sections[3].0, "__bss");
    for section in sections.iter() {
        assert_eq!(section.1, 0);
    }
    let segment = &macho.segments[0];
    assert_eq!(segment.filesize, 0);
    assert_eq!(segment.vmsize, 0);
    assert_eq!(segment.nsects, 4);
    assert_eq!(segment.initprot, 7);
    assert_eq!(segment.maxprot, 7);
    assert_eq!(macho.symbols().count(), 0);
    let strtab_at = 32 + 72 + 4 * 80 + 24;
    assert_eq!(bytes[strtab_at], 0);
    assert_eq!(bytes[strtab_at + 1], 0);
}

#[test]
fn single_function_without_relocations() {
    let bytes = to_bytes(&artifact(vec![function("main", &[0xc3], None)]));
    let macho = MachO::parse(&bytes, 0).unwrap();
    let sections = section_sizes(&macho);
    assert_eq!(sections[0].0, "__text");
    assert_eq!(sections[0].1, 1);
    assert_eq!(sections[0].2, 4);
    let symbols: Vec<_> = macho.symbols().map(|s| s.unwrap()).collect();
    assert_eq!(symbols.len(), 1);
    assert_eq!(symbols[0].0, "_main");
    assert_eq!(symbols[0].1.n_sect, 1);
    assert_eq!(symbols[0].1.n_type, N_EXT | N_SECT);
    assert_eq!(symbols[0].1.n_value, 0);
    let payload_at = 32 + 72 + 4 * 80 + 24;
    assert_eq!(bytes[payload_at], 0xc3);
    let strtab_at = payload_at + 1 + 16;
    assert_eq!(&bytes[strtab_at..strtab_at + 7], b"\0_main\0");
    assert_eq!(bytes.len(), strtab_at + 7 + 1);
}

#[test]
fn two_functions_with_a_branch() {
    let f = function("f", &[0x90, 0xe8, 0, 0], Some(1));
    let g = function("g", &[0xc3, 0x90, 0x90, 0x90], Some(4));
    let link = Link {
        from: end("f", Decl::Defined(f.decl)),
        to: end("g", Decl::Defined(g.decl)),
        at: 1,
        reloc: Reloc::Auto,
    };
    let artifact = Artifact {
        target: x86_64(),
        definitions: vec![f, g],
        imports: Vec::new(),
        links: vec![link],
    };
    let mach = Mach::new(&artifact);
    assert_eq!(mach.symtab.offset("f"), Some(0));
    assert_eq!(mach.symtab.offset("g"), Some(16));
    assert_eq!(mach.symtab.index("g"), Some(1));
    assert_eq!(mach.segment.align_pad_map, vec![("f".to_string(), 12), ("g".to_string(), 0)]);
    assert_eq!(mach.segment.sections[0].size, 20);
    assert_eq!(mach.segment.sections[0].align, 4);
    let relocations = &mach.segment.sections[0].relocations;
    assert_eq!(relocations.len(), 1);
    assert_eq!(relocations[0].r_address, 1);
    let info = relocations[0].r_info;
    assert_eq!(info & 0x00ff_ffff, 1);
    assert_eq!((info >> 24) & 1, 1);
    assert_eq!((info >> 25) & 3, 2);
    assert_eq!((info >> 27) & 1, 1);
    assert_eq!(info >> 28, X86_64_RELOC_BRANCH as u32);
    assert!(mach.segment.sections[1].relocations.is_empty());

    let bytes = mach.write();
    let payload_at = 32 + 72 + 4 * 80 + 24;
    assert_eq!(&bytes[payload_at..payload_at + 4], &[0x90, 0xe8, 0, 0]);
    assert_eq!(&bytes[payload_at + 4..payload_at + 16], &[0xcc; 12]);
    assert_eq!(&bytes[payload_at + 16..payload_at + 20], &[0xc3, 0x90, 0x90, 0x90]);
    let macho = MachO::parse(&bytes, 0).unwrap();
    let segment = &macho.segments[0];
    let (text, _) = &segment.sections().unwrap()[0];
    assert_eq!(text.nreloc, 1);
    let ctx = goblin::container::Ctx::new(
        goblin::container::Container::Big,
        goblin::container::Endian::Little,
    );
    let parsed: Vec<_> = text.iter_relocations(&bytes, ctx).map(|r| r.unwrap()).collect();
    assert_eq!(parsed.len(), 1);
    assert_eq!(parsed[0].r_address, 1);
    assert_eq!(parsed[0].r_symbolnum(), 1);
    assert_eq!(parsed[0].r_pcrel(), 1);
    assert_eq!(parsed[0].r_length(), 2);
    assert_eq!(parsed[0].r_extern(), 1);
    assert_eq!(parsed[0].r_type(), X86_64_RELOC_BRANCH);
}

#[test]
fn data_reference_to_imported_function_is_absolute() {
    let d = data("d", Data::Blob(vec![0; 8]), DataType::Bytes, None);
    let link = Link {
        from: end("d", Decl::Defined(d.decl)),
        to: end("ext", Decl::Import(ImportKind::Function)),
        at: 0,
        reloc: Reloc::Auto,
    };
    let artifact = Artifact {
        target: x86_64(),
        definitions: vec![d],
        imports: vec![("ext".to_string(), ImportKind::Function)],
        links: vec![link],
    };
    let mach = Mach::new(&artifact);
    assert!(mach.segment.sections[0].relocations.is_empty());
    let relocations = &mach.segment.sections[1].relocations;
    assert_eq!(relocations.len(), 1);
    assert_eq!(relocations[0].r_address, 0);
    let info = relocations[0].r_info;
    assert_eq!(info & 0x00ff_ffff, 1);
    assert_eq!((info >> 24) & 1, 0);
    assert_eq!((info >> 25) & 3, 3);
    assert_eq!((info >> 27) & 1, 1);
    assert_eq!(info >> 28, X86_64_RELOC_UNSIGNED as u32);
    let bytes = mach.write();
    let macho = MachO::parse(&bytes, 0).unwrap();
    let symbols: Vec<_> = macho.symbols().map(|s| s.unwrap()).collect();
    assert_eq!(symbols[0].0, "_d");
    assert_eq!(symbols[0].1.n_type, N_SECT);
    assert_eq!(symbols[0].1.n_sect, 2);
    assert_eq!(symbols[1].0, "_ext");
    assert_eq!(symbols[1].1.n_type, N_EXT);
    assert_eq!(symbols[1].1.n_sect, 0);
    assert_eq!(symbols[1].1.n_value, 0);
}

#[test]
fn strings_are_laid_out_without_padding() {
    let hi = data("hi", Data::Blob(b"hi\0".to_vec()), DataType::String, None);
    let world = data("world", Data::Blob(b"world\0".to_vec()), DataType::String, Some(1));
    let artifact = artifact(vec![hi, world]);
    let mach = Mach::new(&artifact);
    assert_eq!(mach.segment.sections[2].flags, S_CSTRING_LITERALS);
    assert_eq!(mach.segment.sections[2].size, 9);
    assert_eq!(mach.segment.sections[2].align, 0);
    assert_eq!(mach.symtab.offset("hi"), Some(0));
    assert_eq!(mach.symtab.offset("world"), Some(3));
    assert_eq!(
        mach.segment.align_pad_map,
        vec![("hi".to_string(), 0), ("world".to_string(), 0)]
    );
    let bytes = mach.write();
    let payload_at = 32 + 72 + 4 * 80 + 24;
    assert_eq!(&bytes[payload_at..payload_at + 9], b"hi\0world\0");
}

#[test]
fn zero_initialized_data_takes_memory_only() {
    let a = data("a", Data::ZeroInit(8), DataType::Bytes, None);
    let b = data("b", Data::ZeroInit(16), DataType::Bytes, None);
    let artifact = artifact(vec![a, b]);
    let mach = Mach::new(&artifact);
    assert_eq!(mach.bss_size, 24);
    assert_eq!(mach.segment.sections[3].flags, S_ZEROFILL);
    assert_eq!(mach.segment.sections[3].size, 0);
    let bytes = mach.write();
    let macho = MachO::parse(&bytes, 0).unwrap();
    let segment = &macho.segments[0];
    assert_eq!(segment.filesize, 0);
    assert_eq!(segment.vmsize - segment.filesize, 24);
    assert_eq!(macho.symbols().count(), 2);
}

#[test]
fn custom_debug_section_is_renamed_and_relocated() {
    let main = function("main", &[0xc3], None);
    let info = Definition {
        name: ".debug_info".to_string(),
        decl: DefinedDecl::Section { kind: SectionKind::Debug, align: None },
        data: Data::Blob(vec![1, 2, 3, 4, 5, 6, 7, 8]),
        symbols: vec![("info_start".to_string(), 2)],
    };
    let link = Link {
        from: end(".debug_info", Decl::Defined(info.decl)),
        to: end("main", Decl::Defined(main.decl)),
        at: 4,
        reloc: Reloc::Debug { size: 4, addend: 0 },
    };
    let artifact = Artifact {
        target: x86_64(),
        definitions: vec![main, info],
        imports: Vec::new(),
        links: vec![link],
    };
    let mach = Mach::new(&artifact);
    assert_eq!(mach.segment.sections.len(), 5);
    assert_eq!(mach.segment.sections.get_index_of(".debug_info"), Some(4));
    assert_eq!(mach.segment.sections.get_index_of("__bss"), Some(3));
    let section = &mach.segment.sections[4];
    assert_eq!(section.sectname, "__debug_info");
    assert_eq!(section.segname, "__DWARF");
    assert_eq!(section.flags, S_ATTR_DEBUG);
    assert_eq!(section.size, 8);
    assert_eq!(section.align, 0);
    assert_eq!(mach.symtab.offset("info_start"), Some(2));
    assert_eq!(mach.symtab.index("info_start"), Some(1));
    assert_eq!(section.relocations.len(), 1);
    assert_eq!(section.relocations[0].r_address, 4);
    let packed = section.relocations[0].r_info;
    assert_eq!(packed & 0x00ff_ffff, 0);
    assert_eq!((packed >> 24) & 1, 0);
    assert_eq!((packed >> 25) & 3, 2);
    let bytes = mach.write();
    let macho = MachO::parse(&bytes, 0).unwrap();
    let sections = section_sizes(&macho);
    assert_eq!(sections.len(), 5);
    assert_eq!(sections[4].0, "__debug_info");
    assert_eq!(sections[4].1, 8);
    let symbols: Vec<_> = macho.symbols().map(|s| s.unwrap()).collect();
    assert_eq!(symbols[1].0, "_info_start");
    assert_eq!(symbols[1].1.n_sect, 5);
    assert_eq!(symbols[1].1.n_value, 1 + 2);
    assert_eq!(symbols[1].1.n_type, N_EXT | N_SECT);
}

fn symtab_command(macho: &MachO) -> goblin::mach::load_command::SymtabCommand {
    for command in macho.load_commands.iter() {
        if let goblin::mach::load_command::CommandVariant::Symtab(symtab) = command.command {
            return symtab;
        }
    }
    panic!("no symbol table command");
}

fn mixed_artifact() -> Artifact {
    let f = function("f", &[0x55, 0xc3], None);
    let g = function("g", &[0xc3], Some(32));
    let d = data("d", Data::Blob(vec![0; 5]), DataType::Bytes, Some(8));
    let e = data("e", Data::Blob(vec![1; 3]), DataType::Bytes, None);
    let s = data("s", Data::Blob(b"hey\0".to_vec()), DataType::String, None);
    let z = data("z", Data::ZeroInit(64), DataType::Bytes, None);
    let custom = Definition {
        name: "__custom".to_string(),
        decl: DefinedDecl::Section { kind: SectionKind::Data, align: Some(4) },
        data: Data::Blob(vec![9; 6]),
        symbols: Vec::new(),
    };
    let links = vec![
        Link {
            from: end("f", Decl::Defined(f.decl)),
            to: end("d", Decl::Defined(d.decl)),
            at: 1,
            reloc: Reloc::Auto,
        },
        Link {
            from: end("g", Decl::Defined(g.decl)),
            to: end("puts", Decl::Import(ImportKind::Data)),
            at: 0,
            reloc: Reloc::Auto,
        },
        Link {
            from: end("e", Decl::Defined(e.decl)),
            to: end("s", Decl::Defined(s.decl)),
            at: 0,
            reloc: Reloc::Auto,
        },
        Link {
            from: end("f", Decl::Defined(f.decl)),
            to: end("missing", Decl::Import(ImportKind::Function)),
            at: 0,
            reloc: Reloc::Auto,
        },
        Link {
            from: end("f", Decl::Defined(f.decl)),
            to: end("g", Decl::Defined(g.decl)),
            at: 0,
            reloc: Reloc::Raw { reloc: 4, addend: 0 },
        },
    ];
    Artifact {
        target: x86_64(),
        definitions: vec![f, d, s, z, g, custom, e],
        imports: vec![("puts".to_string(), ImportKind::Data)],
        links,
    }
}

#[test]
fn quoted_offsets_match_the_bytes_written() {
    let artifact = mixed_artifact();
    let bytes = to_bytes(&artifact);
    let macho = MachO::parse(&bytes, 0).unwrap();
    let segment = &macho.segments[0];
    let sections = segment.sections().unwrap();
    assert_eq!(sections.len(), 5);
    let load_commands = 72 + 5 * 80 + 24;
    assert_eq!(macho.header.sizeofcmds, load_commands);
    let first = 32 + load_commands as u64;
    assert_eq!(segment.fileoff, first);
    assert_eq!(sections[0].0.offset as u64, first);
    let sizes: Vec<u64> = sections.iter().map(|(section, _)| section.size).collect();
    assert_eq!(sizes, vec![33, 11, 4, 0, 6]);
    for k in 0..4 {
        assert_eq!(
            sections[k].0.offset as u64 + sections[k].0.size,
            sections[k + 1].0.offset as u64
        );
    }
    let symtab = symtab_command(&macho);
    assert_eq!(sections[4].0.offset as u64 + sections[4].0.size, symtab.symoff as u64);
    assert_eq!(segment.filesize, 54);
    assert_eq!(segment.vmsize, 54 + 64);
    assert_eq!(symtab.nsyms, 7);
    assert_eq!(symtab.stroff, symtab.symoff + 7 * 16);
    assert_eq!(symtab.strsize, 1 + 3 * 6 + 6);
    let start = symtab.stroff as usize;
    assert_eq!(&bytes[start..start + 25], b"\0_f\0_g\0_d\0_e\0_s\0_z\0_puts\0");
    let relocations = symtab.stroff + symtab.strsize;
    assert_eq!(sections[0].0.nreloc, 3);
    assert_eq!(sections[0].0.reloff, relocations);
    assert_eq!(sections[1].0.nreloc, 1);
    assert_eq!(sections[1].0.reloff, relocations + 3 * 8);
    assert_eq!(sections[2].0.nreloc, 0);
    assert_eq!(sections[2].0.reloff, 0);
    assert_eq!(bytes.len() as u32, relocations + 4 * 8 + 1);
    assert_eq!(bytes[bytes.len() - 1], 0);

    let payload = first as usize;
    assert_eq!(&bytes[payload..payload + 2], &[0x55, 0xc3]);
    assert_eq!(&bytes[payload + 2..payload + 32], &[0xcc; 30]);
    assert_eq!(bytes[payload + 32], 0xc3);
    assert_eq!(&bytes[payload + 33..payload + 38], &[0; 5]);
    assert_eq!(&bytes[payload + 38..payload + 41], &[0xaa; 3]);
    assert_eq!(&bytes[payload + 41..payload + 44], &[1; 3]);
    assert_eq!(&bytes[payload + 44..payload + 48], b"hey\0");
    assert_eq!(&bytes[payload + 48..payload + 54], &[9; 6]);
}

#[test]
fn every_symbol_and_relocation_is_read_back() {
    let artifact = mixed_artifact();
    let mach = Mach::new(&artifact);
    let nsyms = mach.symtab.len() as u32;
    let bytes = mach.write();
    let macho = MachO::parse(&bytes, 0).unwrap();
    let symbols: Vec<_> = macho.symbols().map(|s| s.unwrap()).collect();
    let names: Vec<&str> = symbols.iter().map(|(name, _)| *name).collect();
    assert_eq!(names, vec!["_f", "_g", "_d", "_e", "_s", "_z", "_puts"]);
    let nsects = 5;
    for (name, nlist) in symbols.iter() {
        if *name == "_puts" {
            assert_eq!(nlist.n_sect, 0);
            assert_eq!(nlist.n_type, N_EXT);
        } else {
            assert!(1 <= nlist.n_sect && nlist.n_sect <= nsects);
            assert!(nlist.n_type != 0);
        }
    }
    let ctx = goblin::container::Ctx::new(
        goblin::container::Container::Big,
        goblin::container::Endian::Little,
    );
    let sections = macho.segments[0].sections().unwrap();
    let text: Vec<_> = sections[0].0.iter_relocations(&bytes, ctx).map(|r| r.unwrap()).collect();
    assert_eq!(text.len(), 3);
    assert_eq!((text[0].r_address, text[0].r_symbolnum(), text[0].r_type()), (1, 2, 1));
    assert_eq!((text[1].r_address, text[1].r_symbolnum(), text[1].r_type()), (32, 6, 3));
    assert_eq!((text[2].r_address, text[2].r_symbolnum(), text[2].r_type()), (0, 1, 4));
    let data: Vec<_> = sections[1].0.iter_relocations(&bytes, ctx).map(|r| r.unwrap()).collect();
    assert_eq!(data.len(), 1);
    assert_eq!((data[0].r_address, data[0].r_symbolnum(), data[0].r_type()), (8, 4, 0));
    assert_eq!(data[0].r_pcrel(), 0);
    assert_eq!(data[0].r_length(), 3);
    for relocation in text.iter().chain(data.iter()) {
        assert!((relocation.r_symbolnum() as u32) < nsyms);
        assert_eq!(relocation.r_extern(), 1);
    }
}

#[test]
fn thirty_two_bit_container_uses_the_short_records() {
    let artifact = Artifact {
        target: Target { architecture: Architecture::I386, is_64: false, little_endian: true },
        definitions: vec![function("start", &[0xc3], None)],
        imports: vec![("exit".to_string(), ImportKind::Function)],
        links: Vec::new(),
    };
    let bytes = to_bytes(&artifact);
    let load_commands = 56 + 4 * 68 + 24;
    let strtab = 1 + 7 + 6;
    assert_eq!(bytes.len(), 28 + load_commands + 1 + 2 * 12 + strtab + 1);
    let macho = MachO::parse(&bytes, 0).unwrap();
    assert!(!macho.is_64);
    assert_eq!(macho.header.cputype, goblin::mach::cputype::CPU_TYPE_X86);
    assert_eq!(macho.header.sizeofcmds as usize, load_commands);
    let sections = section_sizes(&macho);
    assert_eq!(sections.len(), 4);
    assert_eq!(sections[0].1, 1);
    let symbols: Vec<_> = macho.symbols().map(|s| s.unwrap()).collect();
    assert_eq!(symbols.len(), 2);
    assert_eq!(symbols[0].0, "_start");
    assert_eq!(symbols[0].1.n_sect, 1);
    assert_eq!(symbols[1].0, "_exit");
    assert_eq!(symbols[1].1.n_type, N_EXT);
}
