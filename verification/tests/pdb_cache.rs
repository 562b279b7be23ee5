use pdb::dbi::{DbiError, EMPTY_DBI_STREAM_HEADER};
use pdb::pdb::Pdb;

fn stream_with(mods: &[u8], sources: &[u8], contribs: &[u8]) -> Vec<u8> {
    let mut v = EMPTY_DBI_STREAM_HEADER.to_vec();
    v[24..28].copy_from_slice(&(mods.len() as u32).to_le_bytes());
    v[28..32].copy_from_slice(&(contribs.len() as u32).to_le_bytes());
    v[36..40].copy_from_slice(&(sources.len() as u32).to_le_bytes());
    v.extend_from_slice(mods);
    v.extend_from_slice(contribs);
    v.extend_from_slice(sources);
    v
}

#[test]
fn empty_dbi_stream_uses_the_empty_header() {
    let p = Pdb::open_dbi(Vec::new()).unwrap();
    assert_eq!(p.dbi_header().age, 1);
    assert_eq!(p.read_dbi_stream_header().version, 19990903);
    assert_eq!(p.dbi_substreams().modules_bytes, 64..64);
    let s = p.read_dbi_stream().unwrap();
    assert_eq!(s.stream_data, EMPTY_DBI_STREAM_HEADER.to_vec());
}

#[test]
fn short_dbi_stream_is_refused() {
    assert_eq!(
        Pdb::open_dbi(vec![1, 2, 3]).err().map(|e| e),
        Some(DbiError::StreamTooShort { stream_len: 3 })
    );
}

#[test]
fn substreams_are_read_and_cached() {
    let data = stream_with(b"MODULES!", &[0, 0, 0, 0], b"CONTRIB!");
    let mut p = Pdb::open_dbi(data).unwrap();
    assert_eq!(p.read_modules().unwrap().substream_data, b"MODULES!".to_vec());
    assert_eq!(p.modules().unwrap().substream_data, b"MODULES!".to_vec());
    assert_eq!(p.modules().unwrap().substream_data, b"MODULES!".to_vec());
    assert_eq!(p.read_sources_data().unwrap(), vec![0, 0, 0, 0]);
    assert_eq!(p.sources_data().unwrap(), &[0, 0, 0, 0]);
    assert_eq!(p.sources().unwrap().num_modules(), 0);
    p.drop_sources();
    assert_eq!(p.sources_data().unwrap(), &[0, 0, 0, 0]);
    assert_eq!(p.read_section_contributions().unwrap(), b"CONTRIB!".to_vec());
}
