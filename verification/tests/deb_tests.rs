use std::io::Read;
use std::io::Write;

use cargo_bundle::archive::{create_archive, ArchiveMember};
use cargo_bundle::deb_bundle::{
    bundle_project, digest_entry, generate_control_file, generate_md5sums,
    transfer_resource_files, ManifestEntry,
};
use cargo_bundle::settings::Settings;

fn plain_settings() -> Settings {
    Settings {
        bundle_name: String::from("foo"),
        binary_name: String::from("foo"),
        version: String::from("1.2.3"),
        binary_arch: String::from("x86_64"),
        authors: Vec::new(),
        homepage: String::new(),
        short_description: String::new(),
        long_description: String::new(),
        debian_dependencies: Vec::new(),
        resource_files: vec![String::from("data/icon.png")],
    }
}

#[test]
fn installed_size_rounds_up() {
    let settings = plain_settings();
    let one = generate_control_file(&settings, "amd64", 1);
    assert!(one.contains("Installed-Size: 1\n"), "{one}");
    let exactly = generate_control_file(&settings, "amd64", 1024);
    assert!(exactly.contains("Installed-Size: 1\n"), "{exactly}");
    let over = generate_control_file(&settings, "amd64", 1025);
    assert!(over.contains("Installed-Size: 2\n"), "{over}");
    let zero = generate_control_file(&settings, "amd64", 0);
    assert!(zero.contains("Installed-Size: 0\n"), "{zero}");
}

#[test]
fn control_file_placeholders_and_blank_lines() {
    let mut settings = plain_settings();
    let text = generate_control_file(&settings, "amd64", 1);
    // Empty descriptions become the placeholder.
    assert!(text.contains("Description: (none)\n"), "{text}");
    assert!(text.ends_with(" (none)\n"), "{text}");
    // Empty homepage and dependencies omit their lines entirely.
    assert!(!text.contains("Homepage:"));
    assert!(!text.contains("Depends:"));
    assert!(text.contains("Maintainer: \n"));

    settings.short_description = String::from("  a tool  ");
    settings.long_description = String::from("First line\n \t \nSecond  line\n");
    settings.homepage = String::from("https://example.invalid/foo");
    settings.debian_dependencies = vec![String::from("libc6 (>= 2.31)"), String::from("zlib1g")];
    settings.authors = vec![String::from("Ada"), String::from("Grace")];
    let text = generate_control_file(&settings, "amd64", 1);
    assert!(text.contains("Description: a tool\n"), "{text}");
    // A blank interior line becomes the `.` paragraph marker; other lines
    // are trimmed and indented by one space.
    assert!(text.contains("Description: a tool\n First line\n .\n Second  line\n"), "{text}");
    assert!(text.contains("Homepage: https://example.invalid/foo\n"));
    assert!(text.contains("Depends: libc6 (>= 2.31), zlib1g\n"));
    assert!(text.contains("Maintainer: Ada, Grace\n"));
}

#[test]
fn control_file_sanitizes_package_name() {
    let mut settings = plain_settings();
    settings.bundle_name = String::from("My Great App");
    let text = generate_control_file(&settings, "i386", 1);
    assert!(text.starts_with("Package: my-great-app\n"), "{text}");
    assert!(text.contains("Architecture: i386\n"));
}

#[test]
fn md5sums_lines() {
    let entries = vec![
        ManifestEntry {
            digest: (0u8..16).collect(),
            rel_path: String::from("usr/bin/foo"),
        },
        ManifestEntry {
            digest: vec![0xff; 16],
            rel_path: String::from("usr/lib/foo/data/icon.png"),
        },
    ];
    let text = generate_md5sums(&entries);
    assert_eq!(
        text,
        "000102030405060708090a0b0c0d0e0f  usr/bin/foo\n\
         ffffffffffffffffffffffffffffffff  usr/lib/foo/data/icon.png\n"
    );
}

#[test]
fn resources_are_staged_under_the_library_dir() {
    let resources = vec![
        String::from("./data/icon.png"),
        String::from("../shared/theme.css"),
        String::from("/abs/logo.svg"),
    ];
    let pairs = transfer_resource_files("foo", &resources);
    assert_eq!(pairs.len(), 3);
    assert_eq!(pairs[0].0, "./data/icon.png");
    assert_eq!(pairs[0].1, "usr/lib/foo/data/icon.png");
    assert_eq!(pairs[1].1, "usr/lib/foo/_up_/shared/theme.css");
    assert_eq!(pairs[2].1, "usr/lib/foo/_root_/abs/logo.svg");
}

#[test]
fn container_round_trip_preserves_order_and_bytes() {
    let members = vec![
        ArchiveMember {
            name: b"A".to_vec(),
            data: b"alpha".to_vec(),
        },
        ArchiveMember {
            name: b"B".to_vec(),
            data: b"bb".to_vec(),
        },
        ArchiveMember {
            name: b"C".to_vec(),
            data: Vec::new(),
        },
    ];
    let bytes = create_archive(&members).expect("archive");
    // Read it back with an independent ar implementation.
    let mut archive = ar::Archive::new(std::io::Cursor::new(bytes));
    let mut seen: Vec<(Vec<u8>, Vec<u8>)> = Vec::new();
    while let Some(entry) = archive.next_entry() {
        let mut entry = entry.expect("entry");
        let mut data = Vec::new();
        entry.read_to_end(&mut data).expect("read");
        seen.push((entry.header().identifier().to_vec(), data));
    }
    assert_eq!(
        seen,
        vec![
            (b"A".to_vec(), b"alpha".to_vec()),
            (b"B".to_vec(), b"bb".to_vec()),
            (b"C".to_vec(), Vec::new()),
        ]
    );
}

#[test]
fn container_bytes_match_reference_writer() {
    let members = vec![
        ArchiveMember {
            name: b"debian-binary".to_vec(),
            data: b"2.0\n".to_vec(),
        },
        ArchiveMember {
            name: b"odd".to_vec(),
            data: b"xyz".to_vec(),
        },
    ];
    let ours = create_archive(&members).expect("archive");
    let mut reference = ar::Builder::new(Vec::new());
    for m in &members {
        reference
            .append(&ar::Header::new(m.name.clone(), m.data.len() as u64), m.data.as_slice())
            .expect("append");
    }
    let theirs = reference.into_inner().expect("finish");
    assert_eq!(ours, theirs);
}

#[test]
fn container_rejects_overlong_names() {
    let members = vec![ArchiveMember {
        name: b"seventeen-bytes-x".to_vec(),
        data: Vec::new(),
    }];
    assert!(create_archive(&members).is_err());
}

fn gzipped(payload: &[u8]) -> Vec<u8> {
    let mut enc = flate2::write::GzEncoder::new(Vec::new(), flate2::Compression::default());
    enc.write_all(payload).expect("gzip write");
    enc.finish().expect("gzip finish")
}

fn tar_of(path: &str, contents: &[u8]) -> Vec<u8> {
    let mut builder = tar::Builder::new(Vec::new());
    let mut header = tar::Header::new_gnu();
    header.set_path(path).expect("path");
    header.set_size(contents.len() as u64);
    header.set_mode(0o644);
    header.set_cksum();
    builder.append(&header, contents).expect("append");
    builder.into_inner().expect("finish")
}

#[test]
fn three_record_package_end_to_end() {
    let settings = plain_settings();
    let plan = bundle_project(&settings);
    assert_eq!(plan.arch, "amd64");
    assert_eq!(plan.package_base_name, "foo_1.2.3_amd64");
    assert_eq!(plan.package_name, "foo_1.2.3_amd64.deb");
    assert_eq!(plan.binary_dest, "usr/bin/foo");
    assert_eq!(plan.debian_binary_content, "2.0\n");

    let control = generate_control_file(&settings, &plan.arch, 1);
    assert!(control.contains("Package: foo\n"));
    assert!(control.contains("Version: 1.2.3\n"));
    assert!(control.contains("Architecture: amd64\n"));

    let control_tar_gz = gzipped(&tar_of("control", control.as_bytes()));
    let data_tar_gz = gzipped(&tar_of("usr/bin/foo", b"\x7fELF"));
    let members = cargo_bundle::deb_bundle::container_members(control_tar_gz, data_tar_gz);
    assert_eq!(members[0].data, plan.debian_binary_content.as_bytes());
    let bytes = create_archive(&members).expect("archive");

    let mut archive = ar::Archive::new(std::io::Cursor::new(bytes));
    let mut names: Vec<Vec<u8>> = Vec::new();
    let mut datas: Vec<Vec<u8>> = Vec::new();
    while let Some(entry) = archive.next_entry() {
        let mut entry = entry.expect("entry");
        let mut data = Vec::new();
        entry.read_to_end(&mut data).expect("read");
        names.push(entry.header().identifier().to_vec());
        datas.push(data);
    }
    assert_eq!(
        names,
        vec![
            b"debian-binary".to_vec(),
            b"control.tar.gz".to_vec(),
            b"data.tar.gz".to_vec(),
        ]
    );
    assert_eq!(datas[0], b"2.0\n");
    // The two tree archives are gzip streams.
    assert_eq!(&datas[1][..2], &[0x1f, 0x8b]);
    assert_eq!(&datas[2][..2], &[0x1f, 0x8b]);
}

#[test]
fn container_parses_with_own_parser() {
    let members = vec![
        ArchiveMember {
            name: b"debian-binary".to_vec(),
            data: b"2.0\n".to_vec(),
        },
        ArchiveMember {
            name: b"odd".to_vec(),
            data: b"xyz".to_vec(),
        },
    ];
    let bytes = cargo_bundle::archive::create_archive(&members).expect("archive");
    let parsed = cargo_bundle::archive::parse_archive(&bytes).expect("parse");
    assert_eq!(parsed.len(), 2);
    assert_eq!(parsed[0].name, b"debian-binary".to_vec());
    assert_eq!(parsed[0].data, b"2.0\n".to_vec());
    assert_eq!(parsed[1].name, b"odd".to_vec());
    assert_eq!(parsed[1].data, b"xyz".to_vec());
    // Damaged input is rejected.
    assert!(cargo_bundle::archive::parse_archive(&bytes[..20].to_vec()).is_none());
    assert!(cargo_bundle::archive::parse_archive(&b"not an archive".to_vec()).is_none());
}

#[test]
fn digest_entry_computes_known_digests() {
    let empty = digest_entry(&Vec::new(), String::from("usr/bin/foo"));
    let text = generate_md5sums(&vec![empty]);
    assert_eq!(text, "d41d8cd98f00b204e9800998ecf8427e  usr/bin/foo\n");
    let abc = digest_entry(&b"abc".to_vec(), String::from("a"));
    let text = generate_md5sums(&vec![abc]);
    assert_eq!(text, "900150983cd24fb0d6963f7d28e17f72  a\n");
}
