use c_lightning_http_plugin::async_io::RpcResponseState;

#[test]
fn reply_ending_in_two_newlines_finishes_the_stream() {
    let mut state = RpcResponseState::new();
    let out = state.next_chunk(b"{\"result\":{}}\n\n");
    assert_eq!(out, b"{\"result\":{}}".to_vec());
    assert_eq!(state, RpcResponseState::TwoNewLines);
    assert!(state.is_finished());
}

#[test]
fn chunk_without_newline_is_forwarded_whole() {
    let mut state = RpcResponseState::new();
    let out = state.next_chunk(b"{\"id\":");
    assert_eq!(out, b"{\"id\":".to_vec());
    assert_eq!(state, RpcResponseState::NoNewLines);
    assert!(!state.is_finished());
}

#[test]
fn single_trailing_newline_is_held_back_then_forwarded() {
    let mut state = RpcResponseState::new();
    let out = state.next_chunk(b"abc\n");
    assert_eq!(out, b"abc".to_vec());
    assert_eq!(state, RpcResponseState::OneNewLine);
    let out = state.next_chunk(b"def");
    assert_eq!(out, b"\ndef".to_vec());
    assert_eq!(state, RpcResponseState::NoNewLines);
}

#[test]
fn terminator_split_over_two_reads_finishes_the_reply() {
    let mut state = RpcResponseState::new();
    assert_eq!(state.next_chunk(b"a\n"), b"a".to_vec());
    let out = state.next_chunk(b"\n");
    assert!(out.is_empty());
    assert!(state.is_finished());
}

#[test]
fn newline_after_a_held_newline_finishes_and_forwards_nothing() {
    let mut state = RpcResponseState::OneNewLine;
    let out = state.next_chunk(b"\nxy");
    assert!(out.is_empty());
    assert!(state.is_finished());
}

#[test]
fn terminator_inside_a_chunk_ends_the_reply_there() {
    let mut state = RpcResponseState::new();
    let out = state.next_chunk(b"{\"a\":1}\n\n{\"b\":2}");
    assert_eq!(out, b"{\"a\":1}".to_vec());
    assert!(state.is_finished());
    assert!(state.next_chunk(b"more").is_empty());
    assert!(state.is_finished());
}

#[test]
fn single_newlines_inside_a_chunk_are_forwarded() {
    let mut state = RpcResponseState::new();
    let out = state.next_chunk(b"a\nb\nc");
    assert_eq!(out, b"a\nb\nc".to_vec());
    assert_eq!(state, RpcResponseState::NoNewLines);
}

#[test]
fn empty_chunk_keeps_a_held_newline() {
    let mut state = RpcResponseState::OneNewLine;
    let out = state.next_chunk(b"");
    assert!(out.is_empty());
    assert_eq!(state, RpcResponseState::OneNewLine);
    let mut state = RpcResponseState::new();
    assert!(state.next_chunk(b"").is_empty());
    assert_eq!(state, RpcResponseState::NoNewLines);
}

#[test]
fn two_newlines_finish_whatever_came_before() {
    for start in [RpcResponseState::NoNewLines, RpcResponseState::OneNewLine] {
        let mut state = start;
        let out = state.next_chunk(b"\n\n");
        assert!(out.is_empty());
        assert!(state.is_finished());
    }
}

#[test]
fn forwarded_bytes_of_a_series_of_chunks_come_in_order() {
    let mut state = RpcResponseState::new();
    let mut all = Vec::new();
    for chunk in [&b"{\"a\":"[..], &b"1}\n"[..], &b"{\"b\":2}\n\n"[..]] {
        all.extend(state.next_chunk(chunk));
    }
    assert_eq!(all, b"{\"a\":1}\n{\"b\":2}".to_vec());
    assert!(state.is_finished());
}

#[test]
fn every_split_of_a_reply_forwards_what_precedes_the_first_two_newlines() {
    let reply = b"{\"id\":1,\n\"result\":{}}\n\n{\"id\":2}\n\n";
    let expected = b"{\"id\":1,\n\"result\":{}}".to_vec();
    for a in 0..=reply.len() {
        for b in a..=reply.len() {
            let mut state = RpcResponseState::new();
            let mut out = Vec::new();
            for chunk in [&reply[..a], &reply[a..b], &reply[b..]] {
                if state.is_finished() {
                    break;
                }
                out.extend(state.next_chunk(chunk));
            }
            assert_eq!(out, expected, "split at {} and {}", a, b);
            assert!(state.is_finished());
        }
    }
}
