use keytag::{Error, OwnedTagSet, PrivateKey, Tag, TagSet, TagType};
use rand::rngs::OsRng;

#[test]
fn test_tags_iterator() {
    let example: Vec<u8> = vec![
        8, 0, // length
        1, 0, // type 1,
        10, 9, 8, 7, // data
        10, 0, // length
        2, 0, // type 2
        1, 2, 3, 4, 5, 6, // data
        7, 0, // length
        3, 1, // type
        3, 4, 5, // data
    ];

    let tag_set = TagSet::from_bytes(&example).unwrap();
    let mut iter = tag_set.iter();

    let tag0 = iter.next().unwrap();
    let tag1 = iter.next().unwrap();
    let tag2 = iter.next().unwrap();
    assert_eq!(iter.next(), None);

    assert_eq!(tag0.data_bytes(), &[10, 9, 8, 7]);
    assert_eq!(tag0.get_type(), TagType(1));
    assert_eq!(tag1.data_bytes(), &[1, 2, 3, 4, 5, 6]);
    assert_eq!(tag1.get_type(), TagType(2));
    assert_eq!(tag2.data_bytes(), &[3, 4, 5]);
    assert_eq!(tag2.get_type(), TagType(259));
}

#[test]
fn test_owned_tag_set_from_owned_tags() {
    let mut csprng = OsRng;

    let secret_key = PrivateKey::generate(&mut csprng);

    let tags = vec![
        Tag::new(TagType(1), secret_key.public().as_bytes()).unwrap(),
        Tag::new(TagType(2), &[0; 32]).unwrap(),
        Tag::new(TagType(100), b"testing").unwrap(),
        Tag::new(TagType(101), b"more testing").unwrap(),
    ];

    let _owned_tag_set = OwnedTagSet::from_tags(&tags);
}

#[test]
fn tag_new_round_trip() {
    let tag = Tag::new(TagType(7), &[1, 2, 3]).unwrap();
    assert_eq!(tag.as_bytes(), &[7, 0, 7, 0, 1, 2, 3]);
    assert_eq!(tag.get_type(), TagType(7));
    assert_eq!(tag.data_bytes(), &[1, 2, 3]);

    let parsed = Tag::from_bytes(tag.as_bytes()).unwrap();
    assert_eq!(parsed, tag);
}

#[test]
fn tag_new_empty_payload() {
    let tag = Tag::new(TagType(0x1234), &[]).unwrap();
    assert_eq!(tag.as_bytes(), &[4, 0, 0x34, 0x12]);
    assert_eq!(tag.data_bytes(), &[0u8; 0]);
    assert_eq!(tag.get_type(), TagType(0x1234));
}

#[test]
fn tag_new_largest_payload() {
    let payload = vec![0xABu8; 65531];
    let tag = Tag::new(TagType(9), &payload).unwrap();
    assert_eq!(tag.as_bytes().len(), 65535);
    assert_eq!(tag.data_bytes(), payload.as_slice());

    let too_long = vec![0u8; 65532];
    assert_eq!(Tag::new(TagType(9), &too_long), Err(Error::TagTooLong));
}

#[test]
fn tag_parse_errors() {
    // Too short for a header.
    assert_eq!(Tag::from_bytes(&[]), Err(Error::EndOfInput));
    assert_eq!(Tag::from_bytes(&[4, 0, 1]), Err(Error::EndOfInput));
    // Declared length below the header size.
    assert_eq!(Tag::from_bytes(&[3, 0, 1, 0]), Err(Error::EndOfInput));
    // Declared length beyond the buffer.
    assert_eq!(Tag::from_bytes(&[5, 0, 1, 0]), Err(Error::EndOfInput));
}

#[test]
fn tag_parse_stops_at_declared_length() {
    let tag = Tag::from_bytes(&[4, 0, 9, 0, 99, 98]).unwrap();
    assert_eq!(tag.as_bytes(), &[4, 0, 9, 0]);
}

#[test]
fn tag_set_parse_errors() {
    // The minimum well-formed record is 4 bytes; shorter buffers fail.
    assert_eq!(TagSet::from_bytes(&[]), Err(Error::EndOfInput));
    assert_eq!(TagSet::from_bytes(&[4]), Err(Error::EndOfInput));
    assert_eq!(TagSet::from_bytes(&[4, 0]), Err(Error::EndOfInput));
    assert_eq!(TagSet::from_bytes(&[4, 0, 1]), Err(Error::EndOfInput));
    assert!(TagSet::from_bytes(&[4, 0, 1, 0]).is_ok());
}

#[test]
fn tag_set_rejects_trailing_byte() {
    let good: Vec<u8> = vec![4, 0, 1, 0, 5, 0, 2, 0, 77];
    assert!(TagSet::from_bytes(&good).is_ok());

    let mut bad = good.clone();
    bad.push(0);
    assert_eq!(TagSet::from_bytes(&bad), Err(Error::EndOfInput));
}

#[test]
fn tag_set_rejects_record_overrun() {
    // Second record declares more bytes than remain.
    let bad: Vec<u8> = vec![4, 0, 1, 0, 9, 0, 2, 0];
    assert_eq!(TagSet::from_bytes(&bad), Err(Error::EndOfInput));
}

#[test]
fn owned_tag_set_append_and_iterate() {
    let mut set = OwnedTagSet::new();
    assert_eq!(set.as_bytes().len(), 0);

    let t1 = Tag::new(TagType(1), &[10, 9, 8, 7]).unwrap();
    let t2 = Tag::new(TagType(2), &[1, 2, 3, 4, 5, 6]).unwrap();
    let t3 = Tag::new(TagType(259), &[3, 4, 5]).unwrap();
    set.add_tag(&t1);
    set.add_tag(&t2);
    set.add_tag(&t3);

    let mut iter = set.iter();
    assert_eq!(iter.next(), Some(t1.clone()));
    assert_eq!(iter.next(), Some(t2.clone()));
    assert_eq!(iter.next(), Some(t3.clone()));
    assert_eq!(iter.next(), None);

    // Iteration is restartable from a fresh iterator.
    let mut again = set.iter();
    assert_eq!(again.next(), Some(t1));
}

#[test]
fn owned_tag_set_matches_parsed_bytes() {
    let t1 = Tag::new(TagType(1), &[10, 9, 8, 7]).unwrap();
    let t2 = Tag::new(TagType(2), &[1, 2, 3, 4, 5, 6]).unwrap();
    let t3 = Tag::new(TagType(259), &[3, 4, 5]).unwrap();
    let set = OwnedTagSet::from_tags(&vec![t1, t2, t3]);

    let expected: Vec<u8> = vec![
        8, 0, 1, 0, 10, 9, 8, 7, 10, 0, 2, 0, 1, 2, 3, 4, 5, 6, 7, 0, 3, 1, 3, 4, 5,
    ];
    assert_eq!(set.as_bytes(), expected.as_slice());
}

#[test]
fn tag_set_to_owned_and_back() {
    let bytes: Vec<u8> = vec![6, 0, 5, 0, 1, 2];
    let set = TagSet::from_bytes(&bytes).unwrap();
    assert_eq!(set.as_bytes(), bytes.as_slice());

    let owned = set.to_owned();
    assert_eq!(owned.as_bytes(), bytes.as_slice());
    assert_eq!(owned.to_tag_set(), set);

    let unchecked = TagSet::from_bytes_unchecked(&bytes);
    assert_eq!(unchecked, set);
}

#[test]
fn owned_tag_set_default_is_empty() {
    let set = OwnedTagSet::default();
    assert_eq!(set, OwnedTagSet::new());
    assert_eq!(set.as_bytes().len(), 0);
    let mut iter = set.iter();
    assert_eq!(iter.next(), None);
}

#[test]
fn tag_unchecked_parse_matches_checked() {
    let bytes: Vec<u8> = vec![6, 0, 5, 0, 1, 2, 99];
    let checked = Tag::from_bytes(&bytes).unwrap();
    let unchecked = Tag::from_bytes_unchecked(&bytes);
    assert_eq!(checked, unchecked);
    assert_eq!(unchecked.as_bytes(), &[6, 0, 5, 0, 1, 2]);
}
