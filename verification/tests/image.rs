use fixpath::{
    file_range_at, process_file, process_imports, read_fix_path_data, read_section_table,
    set_import, walk, write_plan, ChangeImport, FixPathError, Import, ImportDirectory, ImportTable,
    Outcome, RequestChangeSet, SectionHeader,
};

const SLOT: usize = 64;
const IDATA_FILE: usize = 0x1f00;
const IDATA_RVA: u32 = 0x2000;
const NAMES_FILE: usize = 0x2000;
const DELAY_FILE: usize = 0x2200;
const DELAY_NAMES_FILE: usize = 0x2300;
const META_FILE: usize = 0x2500;
const FILE_SIZE: usize = 0x2700;

/// What a test image is made of.
struct Layout {
    wide: bool,
    capacity: u32,
    recorded: Vec<Vec<u8>>,
    delayed_recorded: Vec<Vec<u8>>,
    current: Vec<Vec<u8>>,
    delayed_current: Vec<Vec<u8>>,
    import_directory: bool,
    delay_directory: bool,
    metadata: bool,
    idata_size: Option<u32>,
}

fn names(list: &[&str]) -> Vec<Vec<u8>> {
    list.iter().map(|name| name.as_bytes().to_vec()).collect()
}

fn layout(recorded: &[&str], current: &[&str]) -> Layout {
    Layout {
        wide: false,
        capacity: 64,
        recorded: names(recorded),
        delayed_recorded: Vec::new(),
        current: names(current),
        delayed_current: Vec::new(),
        import_directory: true,
        delay_directory: false,
        metadata: true,
        idata_size: None,
    }
}

fn put_u16(image: &mut [u8], at: usize, value: u16) {
    image[at..at + 2].copy_from_slice(&value.to_le_bytes());
}

fn put_u32(image: &mut [u8], at: usize, value: u32) {
    image[at..at + 4].copy_from_slice(&value.to_le_bytes());
}

fn rva(file_offset: usize) -> u32 {
    (file_offset - IDATA_FILE) as u32 + IDATA_RVA
}

fn put_section(image: &mut [u8], at: usize, name: &[u8; 8], address: u32, size: u32, file: u32) {
    image[at..at + 8].copy_from_slice(name);
    put_u32(image, at + 8, size);
    put_u32(image, at + 12, address);
    put_u32(image, at + 16, size);
    put_u32(image, at + 20, file);
    put_u32(image, at + 36, 0x4000_0040);
}

fn table(entries: &[Vec<u8>]) -> Vec<u8> {
    let mut bytes = Vec::new();
    for entry in entries {
        bytes.extend_from_slice(entry);
        bytes.push(0);
    }
    bytes
}

/// Builds a small PE image: an `.idata` section with both import
/// directories and a slot of 64 bytes for each name, and a `.fixPath` section.
fn build(layout: &Layout) -> Vec<u8> {
    let mut image = vec![0u8; FILE_SIZE];
    image[0] = b'M';
    image[1] = b'Z';
    put_u32(&mut image, 0x3c, 0x40);
    image[0x40..0x44].copy_from_slice(b"PE\0\0");
    let optional_size: usize = if layout.wide { 0xf0 } else { 0xe0 };
    put_u16(&mut image, 0x44, if layout.wide { 0x8664 } else { 0x014c });
    put_u16(&mut image, 0x46, if layout.metadata { 2 } else { 1 });
    put_u16(&mut image, 0x54, optional_size as u16);
    put_u16(&mut image, 0x56, 0x0102);
    put_u16(&mut image, 0x58, if layout.wide { 0x020b } else { 0x010b });
    let directories = 0x58 + optional_size - 128;
    put_u32(&mut image, directories - 4, 16);
    if layout.import_directory {
        put_u32(&mut image, directories + 8, rva(IDATA_FILE));
        put_u32(&mut image, directories + 12, 0x100);
    }
    if layout.delay_directory {
        put_u32(&mut image, directories + 13 * 8, rva(DELAY_FILE));
        put_u32(&mut image, directories + 13 * 8 + 4, 0x100);
    }
    let sections = 0x58 + optional_size;
    put_section(&mut image, sections, b".idata\0\0", IDATA_RVA, 0x600, IDATA_FILE as u32);
    if layout.metadata {
        put_section(&mut image, sections + 40, b".fixPath", 0x3000, 0x200, META_FILE as u32);
    }
    for (i, name) in layout.current.iter().enumerate() {
        let slot = NAMES_FILE + SLOT * i;
        image[slot..slot + name.len()].copy_from_slice(name);
        let descriptor = IDATA_FILE + 20 * i;
        put_u32(&mut image, descriptor, 0x2580);
        put_u32(&mut image, descriptor + 12, rva(slot));
        put_u32(&mut image, descriptor + 16, 0x25c0);
    }
    for (i, name) in layout.delayed_current.iter().enumerate() {
        let slot = DELAY_NAMES_FILE + SLOT * i;
        image[slot..slot + name.len()].copy_from_slice(name);
        let descriptor = DELAY_FILE + 32 * i;
        put_u32(&mut image, descriptor, 1);
        put_u32(&mut image, descriptor + 4, rva(slot));
    }
    let idata = table(&layout.recorded);
    let didata = table(&layout.delayed_recorded);
    put_u32(&mut image, META_FILE, 1);
    put_u32(&mut image, META_FILE + 4, layout.capacity);
    put_u32(&mut image, META_FILE + 8, layout.idata_size.unwrap_or(idata.len() as u32));
    put_u32(&mut image, META_FILE + 12, didata.len() as u32);
    let tables = META_FILE + 16;
    image[tables..tables + idata.len()].copy_from_slice(&idata);
    image[tables + idata.len()..tables + idata.len() + didata.len()].copy_from_slice(&didata);
    image
}

fn request(from: &str, to: &str) -> RequestChangeSet {
    RequestChangeSet { from: String::from(from), to: String::from(to) }
}

fn import(name: &str, abs_address: u32) -> Import {
    Import { dll_name: String::from(name), abs_address }
}

fn walk_normal(image: &[u8]) -> Result<Vec<Import>, FixPathError> {
    read_fix_path_data(image).map(|data| data.imports().clone())
}

fn walk_delayed(image: &[u8]) -> Result<Vec<Import>, FixPathError> {
    read_fix_path_data(image).map(|data| data.delayed_imports().clone())
}

fn c_string_at(image: &[u8], at: usize) -> Vec<u8> {
    image[at..].iter().copied().take_while(|byte| *byte != 0).collect()
}

#[test]
fn single_import_is_redirected() {
    let mut image = build(&layout(&["foo.dll"], &["foo.dll"]));
    let changed = set_import(&mut image, &request("foo.dll", "C:\\libs\\foo.dll")).unwrap();
    assert_eq!(
        changed.dll_changes,
        vec![ChangeImport {
            original_dll_name: String::from("foo.dll"),
            old_dll_name: String::from("foo.dll"),
            new_dll_name: String::from("C:\\libs\\foo.dll"),
            abs_address: 0x2000,
        }]
    );
    assert_eq!(&image[0x2000..0x2010], b"C:\\libs\\foo.dll\0");
}

#[test]
fn redirect_changes_no_other_byte() {
    let before = build(&layout(&["foo.dll"], &["foo.dll"]));
    let mut image = before.clone();
    set_import(&mut image, &request("foo.dll", "C:\\libs\\foo.dll")).unwrap();
    assert_eq!(image.len(), before.len());
    assert_eq!(&image[..0x2000], &before[..0x2000]);
    assert_eq!(&image[0x2010..], &before[0x2010..]);
}

#[test]
fn planning_does_not_touch_the_image() {
    let image = build(&layout(&["foo.dll"], &["foo.dll"]));
    let before = image.clone();
    let run = process_imports(&image, Some(request("foo.dll", "C:\\libs\\foo.dll"))).unwrap();
    let changes = match run {
        Outcome::Changes(changes) => changes,
        Outcome::Listing(_) => panic!("a request must end in a plan"),
    };
    assert_eq!(changes.dll_changes.len(), 1);
    assert_eq!(changes.dll_changes[0].abs_address, 0x2000);
    let writes = write_plan(&changes);
    assert_eq!(writes.len(), 1);
    assert_eq!(writes[0].abs_address, 0x2000);
    assert_eq!(writes[0].bytes, b"C:\\libs\\foo.dll\0".to_vec());
    assert_eq!(image, before);
}

#[test]
fn name_that_fills_the_slot_is_accepted() {
    let mut image = build(&layout(&["foo.dll"], &["foo.dll"]));
    let to = "x".repeat(63);
    let changed = set_import(&mut image, &request("foo.dll", &to)).unwrap();
    assert_eq!(changed.dll_changes.len(), 1);
    assert_eq!(&image[0x2000..0x203f], to.as_bytes());
    assert_eq!(image[0x203f], 0);
}

#[test]
fn name_one_byte_too_long_is_refused() {
    let before = build(&layout(&["foo.dll"], &["foo.dll"]));
    let mut image = before.clone();
    let to = "x".repeat(64);
    let failed = set_import(&mut image, &request("foo.dll", &to));
    assert_eq!(failed, Err(FixPathError::NameTooLong { requested: 64, capacity: 64 }));
    assert_eq!(image, before);
}

#[test]
fn name_too_long_is_reported_even_if_from_is_unknown() {
    let image = build(&layout(&["foo.dll"], &["foo.dll"]));
    let to = "y".repeat(100);
    let run = process_imports(&image, Some(request("nowhere.dll", &to)));
    assert_eq!(run, Err(FixPathError::NameTooLong { requested: 100, capacity: 64 }));
}

#[test]
fn unknown_name_is_not_found() {
    let before = build(&layout(&["foo.dll", "bar.dll"], &["foo.dll", "bar.dll"]));
    let mut image = before.clone();
    let failed = set_import(&mut image, &request("baz.dll", "C:\\baz.dll"));
    assert_eq!(failed, Err(FixPathError::DllNotFound { from: String::from("baz.dll") }));
    assert_eq!(image, before);
}

#[test]
fn table_size_that_cuts_a_name_is_malformed() {
    let mut shape = layout(&["foo.dll"], &["foo.dll"]);
    shape.idata_size = Some(5);
    let image = build(&shape);
    assert_eq!(process_imports(&image, None), Err(FixPathError::MalformedMetadataSection));
}

#[test]
fn table_size_past_the_image_is_malformed() {
    let mut shape = layout(&["foo.dll"], &["foo.dll"]);
    shape.idata_size = Some(0x1000);
    let image = build(&shape);
    assert_eq!(process_imports(&image, None), Err(FixPathError::MalformedMetadataSection));
}

#[test]
fn listing_shows_unmodified_imports() {
    let image = build(&layout(&["foo.dll", "bar.dll"], &["foo.dll", "bar.dll"]));
    let report = match process_imports(&image, None).unwrap() {
        Outcome::Listing(report) => report,
        Outcome::Changes(_) => panic!("no request must end in a listing"),
    };
    assert_eq!(report.version, 1);
    assert_eq!(report.fix_path_size, 64);
    assert_eq!(report.imports.len(), 2);
    assert_eq!(report.imports[0].index, 0);
    assert_eq!(report.imports[0].fix_path_dll_name, "foo.dll");
    assert_eq!(report.imports[0].imports_dll_name, "foo.dll");
    assert_eq!(report.imports[0].abs_address, 0x2000);
    assert!(!report.imports[0].modified);
    assert_eq!(report.imports[1].index, 1);
    assert_eq!(report.imports[1].fix_path_dll_name, "bar.dll");
    assert_eq!(report.imports[1].abs_address, 0x2040);
    assert!(!report.imports[1].modified);
    assert!(report.delayed_imports.is_empty());
}

#[test]
fn listing_after_a_patch_shows_the_new_name_as_modified() {
    let mut image = build(&layout(&["foo.dll", "bar.dll"], &["foo.dll", "bar.dll"]));
    set_import(&mut image, &request("bar.dll", "D:\\other\\bar.dll")).unwrap();
    let report = match process_imports(&image, None).unwrap() {
        Outcome::Listing(report) => report,
        Outcome::Changes(_) => panic!("no request must end in a listing"),
    };
    assert_eq!(report.imports[1].fix_path_dll_name, "bar.dll");
    assert_eq!(report.imports[1].imports_dll_name, "D:\\other\\bar.dll");
    assert_eq!(report.imports[1].abs_address, 0x2040);
    assert!(report.imports[1].modified);
    assert_eq!(report.imports[0].imports_dll_name, "foo.dll");
    assert!(!report.imports[0].modified);
}

#[test]
fn patched_import_is_still_found_by_its_recorded_name() {
    let mut image = build(&layout(&["foo.dll"], &["foo.dll"]));
    set_import(&mut image, &request("foo.dll", "C:\\a\\foo.dll")).unwrap();
    let changed = set_import(&mut image, &request("foo.dll", "C:\\b\\foo.dll")).unwrap();
    assert_eq!(changed.dll_changes[0].original_dll_name, "foo.dll");
    assert_eq!(changed.dll_changes[0].old_dll_name, "C:\\a\\foo.dll");
    assert_eq!(changed.dll_changes[0].new_dll_name, "C:\\b\\foo.dll");
    assert_eq!(c_string_at(&image, 0x2000), b"C:\\b\\foo.dll".to_vec());
    let missing = set_import(&mut image, &request("C:\\b\\foo.dll", "foo.dll"));
    assert_eq!(missing, Err(FixPathError::DllNotFound { from: String::from("C:\\b\\foo.dll") }));
}

#[test]
fn restoring_the_recorded_name_lists_as_unmodified() {
    let mut image = build(&layout(&["foo.dll"], &["C:\\a\\foo.dll"]));
    let changed = set_import(&mut image, &request("foo.dll", "foo.dll")).unwrap();
    assert!(changed.dll_changes[0].restores_original());
    assert!(changed.dll_changes[0].needs_write());
    let report = match process_imports(&image, None).unwrap() {
        Outcome::Listing(report) => report,
        Outcome::Changes(_) => panic!("no request must end in a listing"),
    };
    assert_eq!(report.imports[0].imports_dll_name, "foo.dll");
    assert!(!report.imports[0].modified);
}

#[test]
fn shorter_name_leaves_the_rest_of_the_slot_as_it_was() {
    let mut image = build(&layout(&["longer_name.dll"], &["longer_name.dll"]));
    set_import(&mut image, &request("longer_name.dll", "a.dll")).unwrap();
    assert_eq!(&image[0x2000..0x2010], b"a.dll\0_name.dll\0");
}

#[test]
fn renaming_to_the_current_name_writes_nothing() {
    let before = build(&layout(&["foo.dll"], &["C:\\a\\foo.dll"]));
    let mut image = before.clone();
    let changed = set_import(&mut image, &request("foo.dll", "C:\\a\\foo.dll")).unwrap();
    assert!(changed.dll_changes.is_empty());
    assert_eq!(image, before);
    let planned = match process_imports(&image, Some(request("foo.dll", "C:\\a\\foo.dll"))).unwrap() {
        Outcome::Changes(planned) => planned,
        Outcome::Listing(_) => panic!("a request must end in a plan"),
    };
    assert_eq!(planned.dll_changes.len(), 1);
    assert!(!planned.dll_changes[0].needs_write());
    assert!(write_plan(&planned).is_empty());
}

#[test]
fn name_in_both_tables_is_changed_in_both() {
    let mut shape = layout(&["a.dll", "both.dll"], &["a.dll", "both.dll"]);
    shape.delay_directory = true;
    shape.delayed_recorded = names(&["both.dll", "late.dll"]);
    shape.delayed_current = names(&["both.dll", "late.dll"]);
    let mut image = build(&shape);
    let changed = set_import(&mut image, &request("both.dll", "E:\\both.dll")).unwrap();
    assert_eq!(changed.dll_changes.len(), 2);
    assert_eq!(changed.dll_changes[0].abs_address, 0x2040);
    assert_eq!(changed.dll_changes[1].abs_address, 0x2300);
    assert_eq!(c_string_at(&image, 0x2040), b"E:\\both.dll".to_vec());
    assert_eq!(c_string_at(&image, 0x2300), b"E:\\both.dll".to_vec());
    assert_eq!(c_string_at(&image, 0x2340), b"late.dll".to_vec());
}

#[test]
fn name_only_in_the_delayed_table_is_found() {
    let mut shape = layout(&["a.dll"], &["a.dll"]);
    shape.delay_directory = true;
    shape.delayed_recorded = names(&["late.dll"]);
    shape.delayed_current = names(&["late.dll"]);
    let mut image = build(&shape);
    let changed = set_import(&mut image, &request("late.dll", "late2.dll")).unwrap();
    assert_eq!(changed.dll_changes.len(), 1);
    assert_eq!(changed.dll_changes[0].abs_address, 0x2300);
    assert_eq!(c_string_at(&image, 0x2300), b"late2.dll".to_vec());
}

#[test]
fn walk_gives_names_and_file_offsets_in_table_order() {
    let image = build(&layout(&["a.dll", "b.dll", "c.dll"], &["a.dll", "b.dll", "c.dll"]));
    assert_eq!(
        walk_normal(&image),
        Ok(vec![import("a.dll", 0x2000), import("b.dll", 0x2040), import("c.dll", 0x2080)])
    );
}

#[test]
fn walk_of_delayed_table_gives_its_own_names() {
    let mut shape = layout(&["a.dll"], &["a.dll"]);
    shape.delay_directory = true;
    shape.delayed_recorded = names(&["late.dll", "later.dll"]);
    shape.delayed_current = names(&["late.dll", "later.dll"]);
    let image = build(&shape);
    assert_eq!(
        walk_delayed(&image),
        Ok(vec![import("late.dll", 0x2300), import("later.dll", 0x2340)])
    );
}

#[test]
fn image_without_delay_directory_has_no_delayed_imports() {
    let image = build(&layout(&["a.dll"], &["a.dll"]));
    assert_eq!(walk_delayed(&image), Ok(Vec::new()));
    let data = read_fix_path_data(&image).unwrap();
    assert!(data.delayed_imports().is_empty());
    assert_eq!(data.imports(), &vec![import("a.dll", 0x2000)]);
    assert_eq!(data.info().idata_entries, vec![String::from("a.dll")]);
}

#[test]
fn image_without_import_directory_is_malformed() {
    let mut shape = layout(&[], &[]);
    shape.import_directory = false;
    let image = build(&shape);
    assert_eq!(walk_normal(&image), Err(FixPathError::MalformedImportTable));
    assert_eq!(process_imports(&image, None), Err(FixPathError::MalformedImportTable));
}

#[test]
fn import_directory_without_null_descriptor_is_malformed() {
    let mut image = build(&layout(&["a.dll"], &["a.dll"]));
    for at in (IDATA_FILE..IDATA_FILE + 0x600).step_by(4) {
        put_u32(&mut image, at, 0x2100);
    }
    assert_eq!(walk_normal(&image), Err(FixPathError::MalformedImportTable));
}

#[test]
fn name_address_outside_every_section_is_a_malformed_name() {
    let mut image = build(&layout(&["a.dll"], &["a.dll"]));
    put_u32(&mut image, IDATA_FILE + 12, 0x9000);
    assert_eq!(walk_normal(&image), Err(FixPathError::MalformedImportName));
}

#[test]
fn name_that_is_not_utf8_is_a_malformed_name() {
    let mut shape = layout(&["a.dll"], &["a.dll"]);
    shape.current = vec![vec![0x61, 0xff, 0x62]];
    let image = build(&shape);
    assert_eq!(walk_normal(&image), Err(FixPathError::MalformedImportName));
    assert_eq!(process_imports(&image, None), Err(FixPathError::MalformedImportName));
}

#[test]
fn name_without_terminator_in_its_section_is_a_malformed_name() {
    let mut image = build(&layout(&["a.dll"], &["a.dll"]));
    for byte in image[NAMES_FILE..IDATA_FILE + 0x600].iter_mut() {
        *byte = b'z';
    }
    assert_eq!(walk_normal(&image), Err(FixPathError::MalformedImportName));
}

#[test]
fn image_without_metadata_section_is_refused() {
    let mut shape = layout(&["a.dll"], &["a.dll"]);
    shape.metadata = false;
    let image = build(&shape);
    assert_eq!(process_imports(&image, None), Err(FixPathError::MetadataSectionMissing));
    assert_eq!(read_fix_path_data(&image), Err(FixPathError::MetadataSectionMissing));
}

#[test]
fn more_recorded_names_than_imports_is_a_mismatch() {
    let image = build(&layout(&["a.dll", "b.dll"], &["a.dll"]));
    assert_eq!(
        process_imports(&image, None),
        Err(FixPathError::ImportCountMismatch { table: ImportTable::Normal, expected: 2, actual: 1 })
    );
}

#[test]
fn more_imports_than_recorded_names_is_a_mismatch() {
    let image = build(&layout(&["a.dll"], &["a.dll", "b.dll", "c.dll"]));
    assert_eq!(
        process_imports(&image, Some(request("a.dll", "z.dll"))),
        Err(FixPathError::ImportCountMismatch { table: ImportTable::Normal, expected: 1, actual: 3 })
    );
}

#[test]
fn delayed_table_mismatch_names_the_delayed_table() {
    let mut shape = layout(&["a.dll"], &["a.dll"]);
    shape.delay_directory = true;
    shape.delayed_recorded = names(&["late.dll"]);
    shape.delayed_current = names(&["late.dll", "later.dll"]);
    let image = build(&shape);
    assert_eq!(
        process_imports(&image, None),
        Err(FixPathError::ImportCountMismatch { table: ImportTable::Delayed, expected: 1, actual: 2 })
    );
}

#[test]
fn recorded_delayed_names_without_delay_directory_is_a_mismatch() {
    let mut shape = layout(&["a.dll"], &["a.dll"]);
    shape.delayed_recorded = names(&["late.dll"]);
    let image = build(&shape);
    assert_eq!(
        process_imports(&image, None),
        Err(FixPathError::ImportCountMismatch { table: ImportTable::Delayed, expected: 1, actual: 0 })
    );
}

#[test]
fn pe64_image_is_read_like_a_pe32_one() {
    let mut shape = layout(&["a.dll", "b.dll"], &["a.dll", "b.dll"]);
    shape.wide = true;
    shape.delay_directory = true;
    shape.delayed_recorded = names(&["late.dll"]);
    shape.delayed_current = names(&["late.dll"]);
    let mut image = build(&shape);
    let data = read_fix_path_data(&image).unwrap();
    assert_eq!(data.imports(), &vec![import("a.dll", 0x2000), import("b.dll", 0x2040)]);
    assert_eq!(data.delayed_imports(), &vec![import("late.dll", 0x2300)]);
    let changed = set_import(&mut image, &request("b.dll", "C:\\b.dll")).unwrap();
    assert_eq!(changed.dll_changes[0].abs_address, 0x2040);
    assert_eq!(c_string_at(&image, 0x2040), b"C:\\b.dll".to_vec());
}

#[test]
fn file_of_unknown_kind_is_refused() {
    let bytes = vec![0x7fu8; 64];
    assert_eq!(process_imports(&bytes, None), Err(FixPathError::UnknownFileKind));
    assert_eq!(process_imports(&[], None), Err(FixPathError::UnknownFileKind));
    let mut image = bytes.clone();
    assert_eq!(set_import(&mut image, &request("a", "b")), Err(FixPathError::UnknownFileKind));
    assert_eq!(image, bytes);
}

#[test]
fn object_file_that_is_no_image_is_refused() {
    let mut bytes = vec![0u8; 64];
    bytes[0] = 0x4c;
    bytes[1] = 0x01;
    assert_eq!(process_imports(&bytes, None), Err(FixPathError::NotPeFile));
    assert_eq!(set_import(&mut bytes, &request("a", "b")), Err(FixPathError::NotPeFile));
}

#[test]
fn image_with_broken_headers_is_malformed() {
    let mut image = build(&layout(&["a.dll"], &["a.dll"]));
    image.truncate(0x140);
    assert_eq!(process_imports(&image, None), Err(FixPathError::MalformedImage));
    assert_eq!(process_file(&image, None), Err(FixPathError::MalformedImage));
}

#[test]
fn process_file_reads_an_image_without_asking_for_its_kind() {
    let image = build(&layout(&["a.dll"], &["a.dll"]));
    assert_eq!(process_file(&image, None), process_imports(&image, None));
    assert_eq!(
        process_file(&image, Some(request("a.dll", "b.dll"))),
        process_imports(&image, Some(request("a.dll", "b.dll")))
    );
}

#[test]
fn matching_is_case_sensitive() {
    let image = build(&layout(&["Foo.dll"], &["Foo.dll"]));
    assert_eq!(
        process_imports(&image, Some(request("foo.dll", "x.dll"))),
        Err(FixPathError::DllNotFound { from: String::from("foo.dll") })
    );
}

#[test]
fn section_table_is_read_in_table_order() {
    let image = build(&layout(&["a.dll"], &["a.dll"]));
    assert_eq!(
        read_section_table(&image),
        Ok(vec![
            SectionHeader {
                name: *b".idata\0\0",
                virtual_size: 0x600,
                virtual_address: 0x2000,
                size_of_raw_data: 0x600,
                pointer_to_raw_data: 0x1f00,
            },
            SectionHeader {
                name: *b".fixPath",
                virtual_size: 0x200,
                virtual_address: 0x3000,
                size_of_raw_data: 0x200,
                pointer_to_raw_data: 0x2500,
            },
        ])
    );
}

#[test]
fn section_table_of_broken_headers_is_malformed() {
    let mut image = build(&layout(&["a.dll"], &["a.dll"]));
    image[0x40] = b'X';
    assert_eq!(read_section_table(&image), Err(FixPathError::MalformedImage));
    assert_eq!(read_section_table(&[]), Err(FixPathError::MalformedImage));
}

#[test]
fn walk_resolves_by_the_section_table_it_is_given() {
    let image = build(&layout(&["a.dll", "b.dll"], &["a.dll", "b.dll"]));
    let moved = vec![SectionHeader {
        name: *b".idata\0\0",
        virtual_size: 0x600,
        virtual_address: 0x2000,
        size_of_raw_data: 0x600,
        pointer_to_raw_data: 0x1f40,
    }];
    let directory = ImportDirectory::Names(vec![0x2100, 0x2140]);
    assert_eq!(
        walk(&image, &moved, &directory, true),
        Ok(vec![import("b.dll", 0x2040), import("", 0x2080)])
    );
    assert_eq!(walk(&image, &Vec::new(), &directory, true), Err(FixPathError::MalformedImportName));
    let sections = read_section_table(&image).unwrap();
    assert_eq!(
        walk(&image, &sections, &directory, true),
        Ok(vec![import("a.dll", 0x2000), import("b.dll", 0x2040)])
    );
}

fn addresses_to_try() -> Vec<u32> {
    let mut addresses: Vec<u32> = (0..0x4400u32).step_by(13).collect();
    for edge in [0x2000u32, 0x2600, 0x3000, 0x3200, 0x8000_0000, 0xffff_ff00, 0xffff_ffff] {
        addresses.extend([edge.wrapping_sub(1), edge, edge.wrapping_add(1)]);
    }
    addresses
}

fn assert_resolution_agrees(image: &[u8]) {
    let sections = read_section_table(image).unwrap();
    let table = object::read::pe::PeFile32::parse(image).unwrap().section_table();
    for address in addresses_to_try() {
        assert_eq!(
            file_range_at(&sections, address).map(|range| (range.offset, range.size)),
            table.pe_file_range_at(address)
        );
    }
}

#[test]
fn resolution_agrees_with_the_object_crate() {
    assert_resolution_agrees(&build(&layout(&["a.dll"], &["a.dll"])));
}

#[test]
fn resolution_agrees_with_the_object_crate_on_odd_sections() {
    let mut image = build(&layout(&["a.dll"], &["a.dll"]));
    let sections = 0x58 + 0xe0;
    put_u32(&mut image, sections + 8, 0x1800);
    put_u32(&mut image, sections + 16, 0x300);
    put_u32(&mut image, sections + 40 + 12, 0x2100);
    put_u32(&mut image, sections + 40 + 8, 0x90);
    assert_resolution_agrees(&image);
    put_u32(&mut image, sections + 20, 0xffff_ff80);
    put_u32(&mut image, sections + 12, 0xffff_fe00);
    assert_resolution_agrees(&image);
    put_u32(&mut image, sections + 16, 0);
    assert_resolution_agrees(&image);
}

#[test]
fn names_agree_with_the_object_crate() {
    let mut shape = layout(&["a.dll", "kernel32.dll"], &["C:\\x\\a.dll", "kernel32.dll"]);
    shape.delay_directory = true;
    shape.delayed_recorded = names(&["late.dll"]);
    shape.delayed_current = names(&["late.dll"]);
    let image = build(&shape);
    let file = object::read::pe::PeFile32::parse(&*image).unwrap();
    let table = file.import_table().unwrap().unwrap();
    let mut descriptors = table.descriptors().unwrap();
    let mut expected = Vec::new();
    while let Some(descriptor) = descriptors.next().unwrap() {
        let address = descriptor.name.get(object::LittleEndian);
        expected.push(String::from_utf8(table.name(address).unwrap().to_vec()).unwrap());
    }
    let walked: Vec<String> =
        walk_normal(&image).unwrap().into_iter().map(|import| import.dll_name).collect();
    assert_eq!(walked, expected);
    assert_eq!(walked, vec![String::from("C:\\x\\a.dll"), String::from("kernel32.dll")]);
}

#[test]
fn delay_directory_outside_every_section_is_malformed() {
    let mut shape = layout(&["a.dll"], &["a.dll"]);
    shape.delay_directory = true;
    let mut image = build(&shape);
    put_u32(&mut image, 0x58 + 0xe0 - 128 + 13 * 8, 0x9000);
    assert_eq!(process_imports(&image, None), Err(FixPathError::MalformedImportTable));
}

#[test]
fn import_directory_outside_every_section_is_malformed() {
    let mut image = build(&layout(&["a.dll"], &["a.dll"]));
    put_u32(&mut image, 0x58 + 0xe0 - 128 + 8, 0x9000);
    assert_eq!(process_imports(&image, None), Err(FixPathError::MalformedImportTable));
}

#[test]
fn empty_directories_match_empty_tables() {
    let mut shape = layout(&[], &[]);
    shape.delay_directory = true;
    let image = build(&shape);
    let data = read_fix_path_data(&image).unwrap();
    assert!(data.imports().is_empty());
    assert!(data.delayed_imports().is_empty());
    assert_eq!(
        process_imports(&image, Some(request("a.dll", "b.dll"))),
        Err(FixPathError::DllNotFound { from: String::from("a.dll") })
    );
}
