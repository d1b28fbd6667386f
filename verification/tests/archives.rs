use std::io::Write;

use unarc::cab::CabArchive;
use unarc::error::Error;
use unarc::sniff::{sniff, Format};
use unarc::tar::{Bzip2TarArchive, GzipTarArchive, LzmaTarArchive, TarArchive};
use unarc::zip::ZipArchive;
use unarc::{open_bytes, Archive, ArchiveIter, Archives, Entry, LendingIterator, Opened};

fn tar_fixture() -> Vec<u8> {
    let mut builder = tar::Builder::new(Vec::new());
    let mut header = tar::Header::new_gnu();
    header.set_size(14);
    header.set_cksum();
    builder
        .append_data(&mut header, "greeting.txt", &b"hello, archive"[..])
        .unwrap();
    let mut header = tar::Header::new_gnu();
    header.set_size(3);
    header.set_cksum();
    builder
        .append_data(&mut header, "sub/data.bin", &[1u8, 2, 3][..])
        .unwrap();
    builder.into_inner().unwrap()
}

fn gz_fixture() -> Vec<u8> {
    let mut encoder = flate2::write::GzEncoder::new(Vec::new(), flate2::Compression::default());
    encoder.write_all(&tar_fixture()).unwrap();
    encoder.finish().unwrap()
}

fn bz_fixture() -> Vec<u8> {
    let mut encoder = bzip2::write::BzEncoder::new(Vec::new(), bzip2::Compression::new(6));
    encoder.write_all(&tar_fixture()).unwrap();
    encoder.finish().unwrap()
}

fn xz_fixture() -> Vec<u8> {
    let mut encoder = lzma::writer::LzmaWriter::new_compressor(Vec::new(), 6).unwrap();
    encoder.write_all(&tar_fixture()).unwrap();
    encoder.finish().unwrap()
}

fn cab_fixture() -> Vec<u8> {
    let mut builder = cab::CabinetBuilder::new();
    let folder = builder.add_folder(cab::CompressionType::None);
    folder.add_file("first.txt");
    folder.add_file("second.txt");
    let mut writer = builder.build(std::io::Cursor::new(Vec::new())).unwrap();
    let contents: [&[u8]; 2] = [b"cab one", b"cab two!"];
    let mut index = 0;
    while let Some(mut file_writer) = writer.next_file().unwrap() {
        file_writer.write_all(contents[index]).unwrap();
        index += 1;
    }
    writer.finish().unwrap().into_inner()
}

fn zip_fixture() -> Vec<u8> {
    let mut writer = zip::ZipWriter::new(std::io::Cursor::new(Vec::new()));
    let options = zip::write::SimpleFileOptions::default();
    writer.start_file("alpha.txt", options).unwrap();
    writer.write_all(b"zip alpha").unwrap();
    writer.start_file("beta.txt", options).unwrap();
    writer.write_all(b"zip beta").unwrap();
    writer.finish().unwrap().into_inner()
}

/// Collect (path, content) of every remaining member of a tar cursor.
fn drain_tar(cursor: &mut unarc::tar::TarEntries) -> Vec<(String, Vec<u8>)> {
    let mut out = Vec::new();
    while let Some(item) = cursor.next() {
        let mut entry = item.unwrap();
        let size = entry.size();
        let data = entry.read(size);
        out.push((entry.path(), data));
    }
    out
}

#[test]
fn sniff_classifies_known_signatures() {
    assert_eq!(sniff(&cab_fixture()), Some(Format::Cab));
    assert_eq!(sniff(&tar_fixture()), Some(Format::Tar));
    assert_eq!(sniff(&gz_fixture()), Some(Format::GzipTar));
    assert_eq!(sniff(&bz_fixture()), Some(Format::Bzip2Tar));
    assert_eq!(sniff(&xz_fixture()), Some(Format::LzmaTar));
    assert_eq!(sniff(&zip_fixture()), Some(Format::Zip));
}

#[test]
fn sniff_reports_indeterminate() {
    assert_eq!(sniff(&Vec::new()), None);
    let noise: Vec<u8> = (0u8..=255).map(|b| b.wrapping_mul(17).wrapping_add(3)).collect();
    assert_eq!(sniff(&noise), None);
}

#[test]
fn tar_enumerates_members_in_order() {
    let mut archive = TarArchive::new(tar_fixture()).unwrap();
    let mut cursor = archive.cursor().unwrap();
    let members = drain_tar(&mut cursor);
    assert_eq!(members.len(), 2);
    assert_eq!(members[0].0, "greeting.txt");
    assert_eq!(members[0].1, b"hello, archive".to_vec());
    assert_eq!(members[1].0, "sub/data.bin");
    assert_eq!(members[1].1, vec![1u8, 2, 3]);
}

#[test]
fn tar_entry_stream_reads_total_size() {
    let mut archive = TarArchive::new(tar_fixture()).unwrap();
    let mut cursor = archive.cursor().unwrap();
    let mut entry = cursor.next().unwrap().unwrap();
    let size = entry.size();
    assert_eq!(size, 14);
    let mut total = Vec::new();
    loop {
        let chunk = entry.read(5);
        if chunk.is_empty() {
            break;
        }
        total.extend_from_slice(&chunk);
    }
    assert_eq!(total.len(), size);
    assert_eq!(total, b"hello, archive".to_vec());
    assert!(entry.read(5).is_empty());
    assert!(entry.read(usize::MAX).is_empty());
}

#[test]
fn tar_salvages_members_before_bad_header() {
    let mut bytes = tar_fixture();
    // The second member's header starts at 1024 (one 512-byte header plus
    // one padded 512-byte data block); wreck its checksum field.
    for i in 0..8 {
        bytes[1024 + 148 + i] = b'z';
    }
    let mut archive = TarArchive::new(bytes).unwrap();
    let mut cursor = archive.cursor().unwrap();
    let mut entry = cursor.next().unwrap().unwrap();
    assert_eq!(entry.path(), "greeting.txt");
    let size = entry.size();
    assert_eq!(entry.read(size), b"hello, archive".to_vec());
    assert!(matches!(cursor.next(), Some(Err(Error::Io))));
    assert!(cursor.next().is_none());
}

#[test]
fn tar_cursor_is_consume_once() {
    let mut archive = TarArchive::new(tar_fixture()).unwrap();
    let mut cursor = archive.cursor().unwrap();
    let members = drain_tar(&mut cursor);
    assert_eq!(members.len(), 2);
    assert!(matches!(archive.cursor(), Err(Error::Io)));
}

#[test]
fn gzip_tar_matches_plain_tar() {
    let mut plain = TarArchive::new(tar_fixture()).unwrap();
    let expected = drain_tar(&mut plain.cursor().unwrap());
    let mut compressed = GzipTarArchive::new(gz_fixture()).unwrap();
    let got = drain_tar(&mut compressed.cursor().unwrap());
    assert_eq!(got, expected);
}

#[test]
fn bzip2_tar_matches_plain_tar() {
    let mut plain = TarArchive::new(tar_fixture()).unwrap();
    let expected = drain_tar(&mut plain.cursor().unwrap());
    let mut compressed = Bzip2TarArchive::new(bz_fixture()).unwrap();
    let got = drain_tar(&mut compressed.cursor().unwrap());
    assert_eq!(got, expected);
}

#[test]
fn lzma_tar_matches_plain_tar() {
    let mut plain = TarArchive::new(tar_fixture()).unwrap();
    let expected = drain_tar(&mut plain.cursor().unwrap());
    let mut compressed = LzmaTarArchive::new(xz_fixture()).unwrap();
    let got = drain_tar(&mut compressed.cursor().unwrap());
    assert_eq!(got, expected);
}

#[test]
fn open_tar_gz_end_to_end() {
    let opened = open_bytes(gz_fixture()).unwrap();
    let mut archive = match opened {
        Opened::One(archive) => archive,
        Opened::Many(_) => panic!("a gzip source must classify"),
    };
    assert!(matches!(archive, Archives::GzipTar(_)));
    let mut cursor = Archive::entries(&mut archive).unwrap();
    let mut entry = cursor.next().unwrap().unwrap();
    assert_eq!(entry.path(), "greeting.txt");
    let size = entry.size();
    assert_eq!(entry.read(size), b"hello, archive".to_vec());
}

#[test]
fn open_bytes_classifies_each_format() {
    assert!(matches!(
        open_bytes(cab_fixture()).unwrap(),
        Opened::One(Archives::Cab(_))
    ));
    assert!(matches!(
        open_bytes(tar_fixture()).unwrap(),
        Opened::One(Archives::Tar(_))
    ));
    assert!(matches!(
        open_bytes(bz_fixture()).unwrap(),
        Opened::One(Archives::Bzip2Tar(_))
    ));
    assert!(matches!(
        open_bytes(xz_fixture()).unwrap(),
        Opened::One(Archives::LzmaTar(_))
    ));
    assert!(matches!(
        open_bytes(zip_fixture()).unwrap(),
        Opened::One(Archives::Zip(_))
    ));
    let noise: Vec<u8> = vec![9u8; 600];
    assert!(matches!(open_bytes(noise).unwrap(), Opened::Many(_)));
}

#[test]
fn cab_members_roundtrip() {
    let archive = CabArchive::new(cab_fixture()).unwrap();
    let mut cursor = archive.cursor().unwrap();
    let mut paths = Vec::new();
    let mut contents = Vec::new();
    while let Some(item) = cursor.next() {
        let mut entry = item.unwrap();
        paths.push(entry.path());
        let size = entry.size();
        contents.push(entry.read(size));
    }
    assert_eq!(paths, vec!["first.txt".to_string(), "second.txt".to_string()]);
    assert_eq!(contents, vec![b"cab one".to_vec(), b"cab two!".to_vec()]);
}

#[test]
fn cab_enumeration_is_repeatable() {
    let archive = CabArchive::new(cab_fixture()).unwrap();
    let mut first = Vec::new();
    let mut cursor = archive.cursor().unwrap();
    while let Some(item) = cursor.next() {
        first.push(item.unwrap().path());
    }
    drop(cursor);
    let mut second = Vec::new();
    let mut cursor = archive.cursor().unwrap();
    while let Some(item) = cursor.next() {
        second.push(item.unwrap().path());
    }
    assert_eq!(first, second);
    assert_eq!(first.len(), 2);
}

#[test]
fn zip_members_roundtrip() {
    let archive = ZipArchive::new(zip_fixture()).unwrap();
    let mut cursor = archive.cursor().unwrap();
    let mut members = Vec::new();
    while let Some(item) = cursor.next() {
        let mut entry = item.unwrap();
        let size = entry.size();
        let data = entry.read(size);
        members.push((entry.path(), data));
    }
    assert_eq!(members.len(), 2);
    assert_eq!(members[0].0, "alpha.txt");
    assert_eq!(members[0].1, b"zip alpha".to_vec());
    assert_eq!(members[1].0, "beta.txt");
    assert_eq!(members[1].1, b"zip beta".to_vec());
}

#[test]
fn zip_enumeration_is_repeatable() {
    let archive = ZipArchive::new(zip_fixture()).unwrap();
    let mut first = Vec::new();
    let mut cursor = archive.cursor().unwrap();
    while let Some(item) = cursor.next() {
        first.push(item.unwrap().path());
    }
    drop(cursor);
    let mut second = Vec::new();
    let mut cursor = archive.cursor().unwrap();
    while let Some(item) = cursor.next() {
        second.push(item.unwrap().path());
    }
    assert_eq!(first, second);
    assert_eq!(first.len(), 2);
}

#[test]
fn scanner_finds_embedded_cabinets_in_order() {
    let cab = cab_fixture();
    let mut blob: Vec<u8> = vec![7u8; 33];
    blob.extend_from_slice(&cab);
    blob.extend(std::iter::repeat(9u8).take(21));
    blob.extend_from_slice(&cab);
    let mut scanner = ArchiveIter::new(blob);
    let mut found = 0;
    while let Some(item) = scanner.next() {
        let archive = item.unwrap();
        let mut cursor = archive.cursor().unwrap();
        let entry = cursor.next().unwrap().unwrap();
        assert_eq!(entry.path(), "first.txt");
        found += 1;
    }
    assert_eq!(found, 2);
}

#[test]
fn scanner_error_does_not_halt_scan() {
    let mut blob: Vec<u8> = Vec::new();
    blob.extend_from_slice(b"MSCF");
    blob.extend(std::iter::repeat(0xffu8).take(64));
    blob.extend_from_slice(&cab_fixture());
    let mut scanner = ArchiveIter::new(blob);
    assert!(matches!(scanner.next(), Some(Err(Error::Io))));
    let archive = scanner.next().unwrap().unwrap();
    let mut cursor = archive.cursor().unwrap();
    assert_eq!(cursor.next().unwrap().unwrap().path(), "first.txt");
    assert!(scanner.next().is_none());
}

#[test]
fn scanner_yields_nothing_without_signature() {
    let mut scanner = ArchiveIter::new(vec![1u8, 2, 3, 4, 5, 6, 7, 8]);
    assert!(scanner.next().is_none());
    let mut empty = ArchiveIter::new(Vec::new());
    assert!(empty.next().is_none());
}

#[test]
fn cab_open_rejects_corrupt_header() {
    let mut bytes = b"MSCF".to_vec();
    bytes.extend(std::iter::repeat(0xffu8).take(64));
    assert!(matches!(open_bytes(bytes), Err(Error::Io)));
}

#[test]
fn zip_open_rejects_corrupt_directory() {
    let mut bytes = b"PK\x03\x04".to_vec();
    bytes.extend(std::iter::repeat(0x55u8).take(64));
    assert!(matches!(open_bytes(bytes), Err(Error::Zip)));
}

#[test]
fn gzip_entries_reject_corrupt_stream() {
    let mut bytes = vec![0x1fu8, 0x8b, 0x08];
    bytes.extend(std::iter::repeat(0x2au8).take(64));
    let mut archive = GzipTarArchive::new(bytes).unwrap();
    assert!(matches!(archive.cursor(), Err(Error::Io)));
}

#[test]
fn lzma_entries_reject_corrupt_stream() {
    let mut bytes = vec![0xfdu8, 0x37, 0x7a, 0x58, 0x5a, 0x00];
    bytes.extend(std::iter::repeat(0x2au8).take(64));
    let mut archive = LzmaTarArchive::new(bytes).unwrap();
    let result = archive.cursor();
    assert!(matches!(result, Err(Error::Io) | Err(Error::Lzma)));
}

#[test]
fn facade_dispatch_yields_entries_for_zip() {
    let opened = open_bytes(zip_fixture()).unwrap();
    let mut archive = match opened {
        Opened::One(archive) => archive,
        Opened::Many(_) => panic!("a zip source must classify"),
    };
    let mut cursor = Archive::entries(&mut archive).unwrap();
    let mut paths = Vec::new();
    while let Some(item) = cursor.next() {
        paths.push(item.unwrap().path());
    }
    assert_eq!(paths, vec!["alpha.txt".to_string(), "beta.txt".to_string()]);
}
