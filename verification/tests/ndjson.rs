use ollama_wsock_connector::ndjson::{trim_trailing_newline, NdjsonChatStream, NdjsonStep};
use ollama_wsock_connector::ollama::{
    parse_chat_chunk, ChatChunk, ChatRawChunk, ChatRawMessage, OllamaError,
};

fn read_raw(line: &[u8]) -> Result<ChatRawChunk, String> {
    let v: serde_json::Value = serde_json::from_slice(line).map_err(|e| e.to_string())?;
    Ok(ChatRawChunk {
        message: v.get("message").map(|m| ChatRawMessage {
            content: m.get("content").and_then(|c| c.as_str()).unwrap_or("").to_string(),
        }),
        done: v.get("done").and_then(|d| d.as_bool()).unwrap_or(false),
        total_duration: v.get("total_duration").and_then(|d| d.as_u64()),
        eval_count: v.get("eval_count").and_then(|d| d.as_u64()),
        error: v.get("error").and_then(|e| e.as_str()).map(|e| e.to_string()),
    })
}

fn read_lines(packets: &[&[u8]]) -> Vec<Vec<u8>> {
    let mut stream = NdjsonChatStream::new();
    let mut next = 0;
    let mut lines = vec![];
    loop {
        match stream.poll() {
            NdjsonStep::Line(line) => lines.push(line),
            NdjsonStep::Read => {
                if next < packets.len() {
                    stream.supply(packets[next]);
                    next += 1;
                } else {
                    stream.close();
                }
            }
            NdjsonStep::Over => return lines,
        }
    }
}

fn read_chunks(packets: &[&str]) -> Vec<Result<ChatChunk, OllamaError>> {
    let mut stream = NdjsonChatStream::new();
    let mut packets = packets.iter();
    let mut chunks = vec![];
    loop {
        match stream.poll() {
            NdjsonStep::Line(line) => chunks.push(stream.interpret(&line, read_raw(&line))),
            NdjsonStep::Read => match packets.next() {
                Some(packet) => stream.supply(packet.as_bytes()),
                None => stream.close(),
            },
            NdjsonStep::Over => return chunks,
        }
    }
}

#[test]
fn parses_ndjson_split_across_packets() {
    let chunks: Vec<ChatChunk> = read_chunks(&[
        "{\"message\":{\"content\":\"Hel\"},\"done\":false}\n",
        "{\"message\":{\"content\":\"lo\"},\"done\":fa",
        "lse}\n",
        "{\"message\":{\"content\":\"\"},\"done\":true,\"total_duration\":123,\"eval_count\":42}\n",
    ])
    .into_iter()
    .map(|c| c.unwrap())
    .collect();
    assert_eq!(chunks.len(), 3);
    assert_eq!(chunks[0].content, "Hel");
    assert!(!chunks[0].done);
    assert_eq!(chunks[1].content, "lo");
    assert!(chunks[2].done);
    assert_eq!(chunks[2].total_duration_ns, Some(123));
    assert_eq!(chunks[2].eval_count, Some(42));
}

#[test]
fn handles_last_line_without_trailing_newline() {
    let mut chunks =
        read_chunks(&["{\"message\":{\"content\":\"x\"},\"done\":true}"]).into_iter();
    let c = chunks.next().unwrap().unwrap();
    assert_eq!(c.content, "x");
    assert!(c.done);
    assert!(chunks.next().is_none());
}

#[test]
fn surfaces_ollama_error_field() {
    let chunks = read_chunks(&["{\"error\":\"model 'foo' not found\"}\n"]);
    let err = chunks[0].as_ref().unwrap_err();
    assert!(err.summary().contains("model 'foo' not found"));
    assert_eq!(err.message(), "ollama error: model 'foo' not found");
}

#[test]
fn an_error_field_counts_whatever_else_the_line_holds() {
    let chunks = read_chunks(&["{\"message\":{\"content\":\"x\"},\"done\":true,\"error\":\"e\"}"]);
    assert_eq!(chunks[0].as_ref().unwrap_err().message(), "ollama error: e");
}

#[test]
fn a_line_that_is_no_json_is_shown() {
    let chunks = read_chunks(&["oops\n"]);
    let message = chunks[0].as_ref().unwrap_err().message();
    assert!(message.starts_with("parsing ollama chunk: oops: "));
    let err = parse_chat_chunk(b"a\xff", Err("why".to_string())).unwrap_err();
    assert_eq!(err.message(), "parsing ollama chunk: a\u{fffd}: why");
    let err = parse_chat_chunk(b"not json", read_raw(b"not json")).unwrap_err();
    assert_eq!(err.summary(), "parsing ollama chunk: not json");
    let err = parse_chat_chunk("ä".as_bytes(), Err("why".to_string())).unwrap_err();
    assert_eq!(err.summary(), "parsing ollama chunk: ä");
}

#[test]
fn a_chunk_without_a_message_is_empty() {
    let chunk = parse_chat_chunk(b"{}", Ok(ChatRawChunk::default())).unwrap();
    assert_eq!(chunk.content, "");
    assert!(!chunk.done);
    assert_eq!(chunk.total_duration_ns, None);
    assert_eq!(chunk.eval_count, None);
}

#[test]
fn every_split_gives_the_same_lines() {
    let bytes: &[u8] = b"\n{a}\r\n\r\n{b\n}\n{c}";
    let whole = read_lines(&[bytes]);
    assert_eq!(whole, vec![b"{a}".to_vec(), b"{b".to_vec(), b"}".to_vec(), b"{c}".to_vec()]);
    for i in 0..=bytes.len() {
        for j in i..=bytes.len() {
            assert_eq!(read_lines(&[&bytes[..i], &bytes[i..j], &bytes[j..]]), whole);
        }
    }
}

#[test]
fn lines_are_read_as_written() {
    let texts: Vec<&[u8]> = vec![b"{}", b" ", b"\rx", b"a b"];
    let mut bytes = vec![];
    for text in &texts {
        bytes.extend_from_slice(text);
        bytes.push(b'\n');
    }
    assert_eq!(read_lines(&[&bytes]), texts);
}

#[test]
fn the_last_line_keeps_its_carriage_return() {
    assert_eq!(read_lines(&[b"x\r"]), vec![b"x\r".to_vec()]);
    assert_eq!(read_lines(&[b"x\r\n"]), vec![b"x".to_vec()]);
}

#[test]
fn nothing_follows_a_failure() {
    let mut stream = NdjsonChatStream::new();
    stream.supply(b"a\nb\n");
    assert!(matches!(stream.poll(), NdjsonStep::Line(line) if line == b"a"));
    stream.fail();
    assert!(matches!(stream.poll(), NdjsonStep::Over));
    assert!(matches!(stream.poll(), NdjsonStep::Over));
}

#[test]
fn an_empty_reply_is_over_at_once() {
    assert!(read_lines(&[]).is_empty());
    assert!(read_lines(&[b"", b"\r\n\n"]).is_empty());
}

#[test]
fn trailing_newlines_are_trimmed() {
    assert_eq!(trim_trailing_newline(b"a\r\n"), b"a");
    assert_eq!(trim_trailing_newline(b"a\n\r\n\n"), b"a");
    assert_eq!(trim_trailing_newline(b"\r\n"), b"");
    assert_eq!(trim_trailing_newline(b"\na"), b"\na");
    assert_eq!(trim_trailing_newline(b""), b"");
}

#[test]
fn whole_lines_come_out_before_a_break() {
    let bytes: &[u8] = b"{a}\n\r\n{b}\n{c";
    for i in 0..=bytes.len() {
        let mut stream = NdjsonChatStream::new();
        let mut lines = vec![];
        for packet in [&bytes[..i], &bytes[i..]] {
            stream.supply(packet);
            while let NdjsonStep::Line(line) = stream.poll() {
                lines.push(line);
            }
        }
        stream.fail();
        assert!(matches!(stream.poll(), NdjsonStep::Over));
        assert_eq!(lines, vec![b"{a}".to_vec(), b"{b}".to_vec()]);
    }
}

#[test]
fn nothing_is_read_behind_an_error() {
    let chunks = read_chunks(&["{\"done\":false}\n{\"error\":\"no\"}\n", "{\"done\":true}\n"]);
    assert_eq!(chunks.len(), 2);
    assert!(!chunks[0].as_ref().unwrap().done);
    assert_eq!(chunks[1].as_ref().unwrap_err().message(), "ollama error: no");

    let mut stream = NdjsonChatStream::new();
    stream.supply(b"{}\n{}\n");
    let error = stream.break_off("decoding".into(), "decoding: connection reset".into());
    assert_eq!(error.summary(), "decoding");
    assert_eq!(error.message(), "decoding: connection reset");
    assert!(matches!(stream.poll(), NdjsonStep::Over));
}
