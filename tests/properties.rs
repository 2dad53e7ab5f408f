use std::io::{BufReader, Cursor};

use iter_man::stream::{after_move, seek_bounds, ReadStep};
use iter_man::{
    mem_list_from_chunks, BufferArrayList, BufferList, IterManError, ListLike, MemoryArrayList,
    MemoryList,
};

fn calls<T: Clone>(list: &mut MemoryList<T>, n: usize) -> Vec<Option<T>> {
    (0..n).map(|_| list.next()).collect()
}

#[test]
fn drain_gives_sequence_then_nothing_forever() {
    let mut list = MemoryList::new(vec![10, 20, 30]);
    assert_eq!(
        calls(&mut list, 6),
        [Some(10), Some(20), Some(30), None, None, None]
    );
    assert_eq!(list.line_index(), 3);
}

#[test]
fn drain_of_empty_list_gives_nothing() {
    let mut list: MemoryList<i32> = MemoryList::new(vec![]);
    assert_eq!(calls(&mut list, 3), [None, None, None]);
}

#[test]
fn round_robin_repeats_sequence() {
    let mut list = MemoryList::new_round_robin(vec!['a', 'b']);
    let out: Vec<char> = calls(&mut list, 6).into_iter().map(|v| v.unwrap()).collect();
    assert_eq!(out, ['a', 'b', 'a', 'b', 'a', 'b']);
}

#[test]
fn round_robin_over_empty_gives_nothing() {
    let mut list: MemoryList<u8> = MemoryList::new_round_robin(vec![]);
    assert_eq!(calls(&mut list, 4), [None, None, None, None]);
    assert_eq!(list.line_index(), 0);
}

#[test]
fn seek_in_bounds_reads_that_index() {
    let mut list = MemoryList::new(vec![5, 6, 7, 8]);
    assert_eq!(list.seek(0), Ok(0));
    assert_eq!(list.seek(3), Ok(3));
    assert_eq!(list.next(), Some(8));
    assert_eq!(list.line_index(), 4);
    assert_eq!(list.next(), None);
}

#[test]
fn seek_at_length_fails_and_keeps_position() {
    let mut list = MemoryList::new(vec![5, 6, 7, 8]);
    list.next();
    assert_eq!(
        list.seek(4),
        Err(IterManError::MemoryOutOfBounds {
            line_index: 4,
            max_len: 4,
        })
    );
    assert_eq!(list.line_index(), 1);
    assert_eq!(list.next(), Some(6));
}

#[test]
fn seek_on_empty_list_fails() {
    let mut list: MemoryList<i32> = MemoryList::new(vec![]);
    assert_eq!(
        list.seek(0),
        Err(IterManError::MemoryOutOfBounds {
            line_index: 0,
            max_len: 0,
        })
    );
}

#[test]
fn with_seek_to_out_of_bounds_stays_at_start() {
    let mut list = MemoryList::new(vec![1, 2]).with_seek_to(9);
    assert_eq!(list.line_index(), 0);
    assert_eq!(list.next(), Some(1));
}

#[test]
fn seek_to_current_position_changes_nothing() {
    let mut a = MemoryList::new(vec![1, 2, 3, 4]);
    let mut b = MemoryList::new(vec![1, 2, 3, 4]);
    a.next();
    b.next();
    let here = b.line_index();
    assert_eq!(b.seek(here), Ok(1));
    assert_eq!(calls(&mut a, 5), calls(&mut b, 5));

    let mut c = MemoryList::new(vec![1, 2]);
    let mut d = MemoryList::new(vec![1, 2]);
    calls(&mut c, 2);
    calls(&mut d, 2);
    let end = d.line_index();
    assert!(d.seek(end).is_err());
    assert_eq!(calls(&mut c, 3), calls(&mut d, 3));
}

#[test]
fn round_robin_wraps_lazily_after_last_value() {
    let mut list = MemoryList::new_round_robin(vec![1, 2]);
    list.next();
    list.next();
    assert_eq!(list.line_index(), 2);
    assert_eq!(list.next(), Some(1));
    assert_eq!(list.line_index(), 1);
}

#[test]
fn trait_iter_matches_next() {
    let mut list = MemoryList::new(vec![3, 4]);
    assert_eq!(list.iter(), Some(3));
    assert_eq!(list.iter(), Some(4));
    assert_eq!(list.iter(), None);
    let mut arr = MemoryArrayList::new(vec![vec![1], vec![2]]);
    assert_eq!(arr.iter(), Some(1));
    assert_eq!(arr.iter(), Some(2));
    assert_eq!(arr.iter(), None);
}

#[test]
fn stream_lines_are_trimmed_and_counted() {
    let reader = BufReader::new(Cursor::new("  a b \r\n\tc\n"));
    let mut list = BufferList::new(reader);
    assert_eq!(list.next(), Some("a b".to_string()));
    assert_eq!(list.line_index(), 1);
    assert_eq!(list.bytes_offset(), 8);
    assert_eq!(list.next(), Some("c".to_string()));
    assert_eq!(list.line_index(), 2);
    assert_eq!(list.bytes_offset(), 11);
    assert_eq!(list.next(), None);
    assert_eq!(list.bytes_offset(), 11);
}

#[test]
fn stream_without_final_newline() {
    let reader = BufReader::new(Cursor::new("x\ny"));
    let mut list = BufferList::new_round_robin(reader);
    let out: Vec<String> = (0..5).map(|_| list.next().unwrap()).collect();
    assert_eq!(out, ["x", "y", "x", "y", "x"]);
    assert_eq!(list.line_index(), 1);
    assert_eq!(list.bytes_offset(), 2);
}

#[test]
fn stream_reset_keeps_stream_position() {
    let mut list = BufferList::new(BufReader::new(Cursor::new("1\n2\n3\n")));
    list.next();
    list.reset();
    assert_eq!(list.line_index(), 0);
    assert_eq!(list.bytes_offset(), 0);
    assert_eq!(list.next(), Some("2".to_string()));
    assert_eq!(list.line_index(), 1);
    assert_eq!(list.bytes_offset(), 2);
}

#[test]
fn stream_seek_to_end_then_nothing() {
    let mut list = BufferList::new(BufReader::new(Cursor::new("1\n2\n3\n")));
    assert_eq!(list.seek(3, 6), Ok(6));
    assert_eq!(list.next(), None);
    assert_eq!(list.line_index(), 3);
}

#[test]
fn stream_with_seek_to_out_of_bounds_keeps_counters() {
    let mut list = BufferList::new(BufReader::new(Cursor::new("1\n2\n3\n"))).with_seek_to(9, 7);
    assert_eq!(list.line_index(), 0);
    assert_eq!(list.bytes_offset(), 0);
    assert_eq!(list.next(), Some("1".to_string()));
}

#[test]
fn seek_bounds_decisions() {
    assert_eq!(
        seek_bounds(1, 2, None),
        Err(IterManError::StreamOutOfBounds {
            line_index: 1,
            bytes_offset: 2,
            max_len: 0,
        })
    );
    assert_eq!(
        seek_bounds(1, 7, Some(6)),
        Err(IterManError::StreamOutOfBounds {
            line_index: 1,
            bytes_offset: 7,
            max_len: 6,
        })
    );
    assert_eq!(seek_bounds(1, 6, Some(6)), Ok(6));
    assert_eq!(seek_bounds(0, 0, Some(0)), Ok(0));
}

#[test]
fn multiplex_passes_over_exhausted_slots() {
    let mut list = MemoryArrayList::new(vec![vec![1], vec![2, 3, 4], vec![]]);
    let out: Vec<Option<i32>> = (0..6).map(|_| list.next()).collect();
    assert_eq!(out, [Some(1), Some(2), Some(3), Some(4), None, None]);
}

#[test]
fn multiplex_round_robin_with_uneven_slots() {
    let mut list = MemoryArrayList::new_round_robin(vec![vec![1, 2], vec![], vec![3]]);
    let out: Vec<i32> = (0..6).map(|_| list.next().unwrap()).collect();
    assert_eq!(out, [1, 3, 2, 3, 1, 3]);
}

#[test]
fn multiplex_without_slots_gives_nothing() {
    let mut list: MemoryArrayList<i32> = MemoryArrayList::new(vec![]);
    assert_eq!(list.next(), None);
    let mut rr: MemoryArrayList<i32> = MemoryArrayList::new_round_robin(vec![vec![], vec![]]);
    assert_eq!(rr.next(), None);
}

#[test]
fn stream_multiplex_alternates_and_retires() {
    let a = BufferList::new(BufReader::new(Cursor::new("a1\na2\n")));
    let b = BufferList::new(BufReader::new(Cursor::new("b1\n")));
    let c = BufferList::new(BufReader::new(Cursor::new("")));
    let mut list = BufferArrayList::new(vec![a, b, c]);
    let out: Vec<Option<String>> = (0..5).map(|_| list.next()).collect();
    assert_eq!(
        out,
        [
            Some("a1".to_string()),
            Some("b1".to_string()),
            Some("a2".to_string()),
            None,
            None
        ]
    );
}

#[test]
fn chunks_without_round_robin_end() {
    let mut list = mem_list_from_chunks("abcdefg", 3, false).unwrap();
    let out: Vec<String> = std::iter::from_fn(|| list.next()).collect();
    assert_eq!(out, ["abc", "def", "g"]);
}

#[test]
fn chunks_of_empty_text() {
    let mut list = mem_list_from_chunks("", 4, true).unwrap();
    assert_eq!(list.next(), None);
}

#[test]
fn chunks_keep_whole_characters() {
    let mut list = mem_list_from_chunks("héllo", 3, false).unwrap();
    let out: Vec<String> = std::iter::from_fn(|| list.next()).collect();
    assert_eq!(out, ["hé", "llo"]);
}

#[test]
fn chunk_cutting_a_character_is_an_error() {
    let r = mem_list_from_chunks("héllo", 2, false);
    assert_eq!(r.err().unwrap().kind(), std::io::ErrorKind::InvalidData);
}

#[test]
fn after_read_decides_each_outcome() {
    let mut list = BufferList::new_round_robin(BufReader::new(Cursor::new("")));
    match list.after_read(Some((5, "  ab\n".to_string())), false) {
        ReadStep::Line(s) => assert_eq!(s, "ab"),
        _ => panic!("expected a line"),
    }
    assert_eq!(list.line_index(), 1);
    assert_eq!(list.bytes_offset(), 5);
    assert!(matches!(
        list.after_read(Some((0, String::new())), false),
        ReadStep::Rewind
    ));
    assert!(matches!(
        list.after_read(Some((0, String::new())), true),
        ReadStep::End
    ));
    assert!(matches!(list.after_read(None, false), ReadStep::End));
    assert_eq!(list.line_index(), 1);
    assert_eq!(list.bytes_offset(), 5);

    let mut plain = BufferList::new(BufReader::new(Cursor::new("")));
    assert!(matches!(
        plain.after_read(Some((0, String::new())), false),
        ReadStep::End
    ));
}

#[test]
fn after_move_decisions() {
    assert_eq!(after_move(2, 4, 6, true), Ok(4));
    assert_eq!(
        after_move(2, 4, 6, false),
        Err(IterManError::StreamOutOfBounds {
            line_index: 2,
            bytes_offset: 4,
            max_len: 6,
        })
    );
}

#[test]
fn after_slot_read_retires_and_passes_turn() {
    let a = BufferList::new(BufReader::new(Cursor::new("a\n")));
    let b = BufferList::new(BufReader::new(Cursor::new("b\n")));
    let mut list = BufferArrayList::new(vec![a, b]);
    assert_eq!(list.after_slot_read(0, None), None);
    // slot 0 is retired and the turn is with slot 1
    assert_eq!(list.next(), Some("b".to_string()));
    assert_eq!(list.next(), None);
    let c = BufferList::new(BufReader::new(Cursor::new("c\n")));
    let d = BufferList::new(BufReader::new(Cursor::new("d\n")));
    let mut other = BufferArrayList::new(vec![c, d]);
    assert_eq!(
        other.after_slot_read(1, Some("x".to_string())),
        Some("x".to_string())
    );
    // the turn wrapped to slot 0
    assert_eq!(other.next(), Some("c".to_string()));
}

#[test]
fn stream_lists_share_the_capability() {
    let mut list = BufferList::new(BufReader::new(Cursor::new(" q \n")));
    assert_eq!(list.iter(), Some("q".to_string()));
    assert_eq!(list.iter(), None);
    let bytes: Vec<u8> = b"r\ns\n".to_vec();
    let one = BufferList::new(BufReader::new(Cursor::new(bytes)));
    let two = BufferList::new(BufReader::new(Cursor::new("t\n".to_string())));
    let mut arr = BufferArrayList::new(vec![one]);
    assert_eq!(arr.iter(), Some("r".to_string()));
    let mut plain = two;
    assert_eq!(plain.iter(), Some("t".to_string()));
}
