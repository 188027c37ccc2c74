use lapiz::abr::{Abr, AbrError};

fn section(key: &[u8; 4], payload: &[u8]) -> Vec<u8> {
    let mut out = b"8BIM".to_vec();
    out.extend_from_slice(key);
    out.extend_from_slice(&(payload.len() as u32).to_be_bytes());
    out.extend_from_slice(payload);
    out
}

fn pad4(bytes: &mut Vec<u8>) {
    while bytes.len() % 4 != 0 {
        bytes.push(0);
    }
}

#[test]
fn abr_sections_are_sorted_by_kind() {
    let mut file = vec![0, 6, 0, 2];
    file.extend(section(b"samp", &[1, 2, 3]));
    pad4(&mut file);
    file.extend(section(b"desc", &[4, 5, 6, 7]));
    file.extend(section(b"zzzz", &[9]));
    pad4(&mut file);
    file.extend(section(b"patt", &[8]));
    let abr = Abr::parse(&file).unwrap();
    assert_eq!(abr.header.version, 6);
    assert_eq!(abr.header.sub_version, 2);
    assert_eq!(abr.sample_sections, vec![vec![1, 2, 3]]);
    assert_eq!(abr.descriptor_sections, vec![vec![4, 5, 6, 7]]);
    assert_eq!(abr.pattern_sections, vec![vec![8]]);
    assert!(abr.hierarchy_sections.is_empty());
}

#[test]
fn abr_with_only_header_has_no_sections() {
    let abr = Abr::parse(&[0, 10, 0, 1]).unwrap();
    assert_eq!(abr.header.version, 10);
    assert!(abr.descriptor_sections.is_empty());
}

#[test]
fn abr_errors() {
    assert!(matches!(Abr::parse(&[0, 6]), Err(AbrError::UnexpectedEnd)));
    let mut bad = vec![0, 6, 0, 2];
    bad.extend(b"8BIX");
    bad.extend(b"desc");
    bad.extend(&[0, 0, 0, 0]);
    assert!(matches!(Abr::parse(&bad), Err(AbrError::UnsupportedSignature)));
    let mut short = vec![0, 6, 0, 2];
    short.extend(section(b"desc", &[1, 2, 3]));
    short.truncate(short.len() - 1);
    assert!(matches!(Abr::parse(&short), Err(AbrError::UnexpectedEnd)));
    let mut unpadded = vec![0, 6, 0, 2];
    unpadded.extend(section(b"desc", &[1]));
    unpadded.push(0);
    assert!(matches!(Abr::parse(&unpadded), Err(AbrError::UnexpectedEnd)));
}
