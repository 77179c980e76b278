use pnet_core::{
    AsBytes, ErrMode, Error, ErrorKind, FindToken, Finish, InputIter, InputLength, InputTake,
    InputTakeAtPosition, InputTakeIter, Needed, PResult, ParseError, Slice,
};

#[test]
fn needed_new_of_zero_is_unknown() {
    assert_eq!(Needed::new(0), Needed::Unknown);
    assert_eq!(Needed::new(3), Needed::Size(3));
    assert!(Needed::new(1).is_known());
    assert!(!Needed::new(0).is_known());
}

#[test]
fn input_len_of_slices_and_bit_inputs() {
    let data: &[u8] = &[1, 2, 3];
    assert_eq!(data.input_len(), 3);
    let words: &[u16] = &[1, 2];
    assert_eq!(words.input_len(), 2);
    assert_eq!((data, 5usize).input_len(), 19);
    assert_eq!((data, 24usize).input_len(), 0);
}

#[test]
fn as_bytes_is_the_slice() {
    let data: &[u8] = &[1, 2, 3];
    assert_eq!(AsBytes::as_bytes(&data), &[1, 2, 3]);
    assert_eq!(AsBytes::as_bytes(&[4u8, 5][..]), &[4, 5]);
}

#[test]
fn take_and_take_split() {
    let data: &[u8] = &[1, 2, 3, 4];
    assert_eq!(InputTake::take(&data, 2), &[1, 2]);
    assert_eq!(InputTake::take(&data, 0), &[] as &[u8]);
    assert_eq!(InputTake::take(&data, 4), &[1, 2, 3, 4]);
    let (rest, prefix) = data.take_split(1);
    assert_eq!(prefix, &[1]);
    assert_eq!(rest, &[2, 3, 4]);
    assert_eq!(data.take_offsets(3, 1), &[2, 3]);
    assert_eq!(data.take_iter(1), &[1, 2, 3, 4]);
}

#[test]
fn iter_indices_and_elements() {
    let data: &[u8] = &[7, 8, 9];
    assert_eq!(data.iter_indices(), vec![(0, 7), (1, 8), (2, 9)]);
    assert_eq!(data.iter_elements(), vec![7, 8, 9]);
    let empty: &[u8] = &[];
    assert_eq!(empty.iter_indices(), vec![]);
}

#[test]
fn position_finds_first_match() {
    let data: &[u8] = &[1, 5, 3, 5];
    assert_eq!(InputIter::position(&data, |b| b == 5), Some(1));
    assert_eq!(InputIter::position(&data, |b| b == 1), Some(0));
    assert_eq!(InputIter::position(&data, |b| b > 9), None);
}

#[test]
fn slice_index_within_and_beyond() {
    let data: &[u8] = &[1, 2, 3];
    assert_eq!(data.slice_index(0), Ok(0));
    assert_eq!(data.slice_index(2), Ok(2));
    assert_eq!(data.slice_index(3), Ok(3));
    assert_eq!(data.slice_index(4), Err(Needed::Size(1)));
    assert_eq!(data.slice_index(10), Err(Needed::new(7)));
}

#[test]
fn split_at_position_allows_empty_prefix() {
    let data: &[u8] = b"ab cd";
    let r: PResult<&[u8], &[u8]> = data.split_at_position(|b| b == b' ');
    assert_eq!(r, Ok((&b" cd"[..], &b"ab"[..])));
    let r: PResult<&[u8], &[u8]> = data.split_at_position(|b| b == b'a');
    assert_eq!(r, Ok((&b"ab cd"[..], &b""[..])));
    let r: PResult<&[u8], &[u8]> = data.split_at_position(|b| b == b'z');
    assert_eq!(r, Err(ErrMode::Incomplete(Needed::Size(1))));
}

#[test]
fn split_at_position1_empty_prefix_is_recoverable_error() {
    let data: &[u8] = b"ab cd";
    let r: PResult<&[u8], &[u8]> = data.split_at_position1(|b| b == b'a', ErrorKind::TakeTill1);
    assert_eq!(r, Err(ErrMode::Error(Error { input: data, code: ErrorKind::TakeTill1 })));
    assert!(!matches!(r, Err(ErrMode::Failure(_))));
    let r: PResult<&[u8], &[u8]> = data.split_at_position1(|b| b == b' ', ErrorKind::TakeTill1);
    assert_eq!(r, Ok((&b" cd"[..], &b"ab"[..])));
    let r: PResult<&[u8], &[u8]> = data.split_at_position1(|b| b == b'z', ErrorKind::TakeTill1);
    assert_eq!(r, Err(ErrMode::Incomplete(Needed::Size(1))));
    let empty: &[u8] = b"";
    let r: PResult<&[u8], &[u8]> = empty.split_at_position1(|_| true, ErrorKind::Tag);
    assert_eq!(r, Err(ErrMode::Incomplete(Needed::Size(1))));
}

#[test]
fn find_token_looks_through_the_whole_input() {
    let data: &[u8] = b"the quick brown fox";
    assert!(data.find_token(b'k'));
    assert!(data.find_token(b't'));
    assert!(data.find_token(b'x'));
    assert!(!data.find_token(b'z'));
    assert!(data.find_token(&b'q'));
    assert!(!data.find_token(&b'Q'));
    let empty: &[u8] = b"";
    assert!(!empty.find_token(0u8));
}

#[test]
fn slice_by_each_kind_of_range() {
    let data: &[u8] = &[1, 2, 3, 4];
    assert_eq!(data.slice(1..3), &[2, 3]);
    assert_eq!(data.slice(..2), &[1, 2]);
    assert_eq!(data.slice(2..), &[3, 4]);
    assert_eq!(data.slice(..), &[1, 2, 3, 4]);
    assert_eq!(data.slice(4..), &[] as &[u8]);
    assert_eq!(data.slice(2..2), &[] as &[u8]);
}

#[test]
fn finish_collapses_error_and_failure() {
    let ok: Result<(&[u8], u8), ErrMode<u32>> = Ok((&[1u8][..], 2));
    assert_eq!(ok.finish(), Ok((&[1u8][..], 2)));
    let error: Result<(&[u8], u8), ErrMode<u32>> = Err(ErrMode::Error(7));
    assert_eq!(error.finish(), Err(7));
    let failure: Result<(&[u8], u8), ErrMode<u32>> = Err(ErrMode::Failure(8));
    assert_eq!(failure.finish(), Err(8));
}

#[test]
fn error_from_error_kind_keeps_input_and_kind() {
    let data: &[u8] = &[1];
    let e: Error<&[u8]> = ParseError::from_error_kind(data, ErrorKind::Eof);
    assert_eq!(e, Error { input: data, code: ErrorKind::Eof });
}
