//! The memory writer and its fallback.

use soul_memory::exchange::{Body, Context, Fault, Method, Request};
use soul_memory::local::{
    append_content, check_file, check_parts, AfterParent, AfterProbe, BaseRoot,
    MemoryWriteResult, ParentPending, PathFault, PathPart, ProbePending, ReadPending, StorePending,
    HOME_SUBSTITUTE, MEMORY_DIR,
};
use soul_memory::writer::{
    B00tSoulHttpClient, B00tSoulWriter, WriteMemoryStep, WriteResponse, WriteStep,
};
use std::collections::HashMap;

type Cause = &'static str;

/// Files by their path under the memory directory.
struct Files {
    texts: HashMap<String, String>,
}

impl Files {
    fn new() -> Self {
        Files { texts: HashMap::new() }
    }

    /// Goes through all the steps of a write.
    fn write_memory(
        &mut self,
        file: &str,
        content: &str,
        append: bool,
    ) -> Result<MemoryWriteResult, PathFault> {
        let begun = ParentPending::write_memory(file, content, append)?;
        let store = match begun.created::<Cause>(Ok(())).unwrap() {
            AfterParent::Store(store) => store,
            AfterParent::Probe(probe) => match probe.probed(self.texts.contains_key(file)) {
                AfterProbe::Store(store) => store,
                AfterProbe::Read(read) => {
                    read.read::<Cause>(Ok(self.texts[file].clone())).unwrap()
                },
            },
        };
        self.texts.insert(file.to_string(), store.content.clone());
        Ok(store.stored::<Cause>(Ok(()), file.to_string()).unwrap())
    }
}

fn unreachable_server() -> Result<MemoryWriteResult, Fault<Cause>> {
    let sent: Result<u16, Cause> = Err("connection refused");
    match B00tSoulHttpClient::write_sent(sent) {
        WriteStep::Failed(fault) => Err(fault),
        WriteStep::ReadBody => panic!("there is no body"),
    }
}

#[test]
fn writer_fallback_on_unreachable_soul() {
    let mut files = Files::new();
    let writer = B00tSoulWriter::with_soul_url("http://127.0.0.1:19999");
    let _request = writer.write_memory("SOUL.md", "# Test", false);
    let result = match writer.soul_wrote(unreachable_server()) {
        WriteMemoryStep::WriteLocal(_) => files.write_memory("SOUL.md", "# Test", false).unwrap(),
        WriteMemoryStep::Done(result) => panic!("{:?}", result),
    };
    assert!(result.bytes_written > 0);
    assert_eq!(result.bytes_written, 6);
    let content = &files.texts[&result.location];
    assert_eq!(content, "# Test");
}

#[test]
fn writer_strict_errors_on_unreachable_soul() {
    let writer = B00tSoulWriter::with_soul_url("http://127.0.0.1:19999").strict();
    let _request = writer.write_memory("SOUL.md", "test", false);
    let step = writer.soul_wrote(unreachable_server());
    assert!(matches!(step, WriteMemoryStep::Done(Err(_))));
    assert_eq!(
        step,
        WriteMemoryStep::Done(Err(Fault::Failed {
            context: Context::WriteRequest,
            cause: "connection refused",
        }))
    );
}

#[test]
fn fallback_writer_append_semantics() {
    let mut w = Files::new();
    w.write_memory("mem.md", "first", false).unwrap();
    w.write_memory("mem.md", "second", true).unwrap();
    let content = &w.texts["mem.md"];
    assert!(content.contains("first") && content.contains("second"));
    assert_eq!(content, "first\n\nsecond");
}

#[test]
fn fallback_writer_rejects_path_traversal() {
    let mut w = Files::new();
    assert!(w.write_memory("../evil.md", "x", false).is_err());
    assert_eq!(w.write_memory("../evil.md", "x", false), Err(PathFault::Traversal));
    assert!(w.texts.is_empty());
}

#[test]
fn the_writer_and_its_modes() {
    let writer = B00tSoulWriter::new();
    assert_eq!(writer.client.base_url, "http://127.0.0.1:7700");
    assert_eq!(writer.client.timeout_secs, 5);
    assert!(writer.fallback_on_error);
    let default = B00tSoulWriter::default();
    assert_eq!(default.client.base_url, "http://127.0.0.1:7700");
    assert!(default.fallback_on_error);
    let strict = B00tSoulWriter::with_soul_url("http://host:1").strict();
    assert_eq!(strict.client.base_url, "http://host:1");
    assert!(!strict.fallback_on_error);
}

#[test]
fn the_request_to_write() {
    let writer = B00tSoulWriter::with_soul_url("http://host:1");
    assert_eq!(
        writer.write_memory("a.md", "text", true),
        Request {
            method: Method::Post,
            url: "http://host:1/v1/memory/write".to_string(),
            query: None,
            body: Body::Write {
                file: "a.md".to_string(),
                content: "text".to_string(),
                append: true,
            },
        }
    );
    assert_eq!(
        B00tSoulHttpClient::new("x").write_memory("f", "", false).url,
        "x/v1/memory/write"
    );
}

#[test]
fn the_response_to_a_write() {
    let sent = |status: u16| -> Result<u16, Cause> { Ok(status) };
    assert_eq!(B00tSoulHttpClient::write_sent(sent(200)), WriteStep::ReadBody);
    assert_eq!(
        B00tSoulHttpClient::write_sent(sent(404)),
        WriteStep::Failed(Fault::Status { context: Context::WriteResponse, status: 404 })
    );
    let response = WriteResponse { location: "there".to_string(), bytes_written: 3 };
    assert_eq!(
        B00tSoulHttpClient::write_read::<Cause>(Ok(response)),
        Ok(MemoryWriteResult { location: "there".to_string(), bytes_written: 3 })
    );
    assert_eq!(
        B00tSoulHttpClient::write_read(Err("no JSON")),
        Err(Fault::Failed { context: Context::WriteDecode, cause: "no JSON" })
    );
}

#[test]
fn what_the_server_wrote_is_the_result() {
    let result = || MemoryWriteResult { location: "there".to_string(), bytes_written: 3 };
    for writer in [B00tSoulWriter::new(), B00tSoulWriter::new().strict()] {
        assert_eq!(
            writer.soul_wrote::<Cause>(Ok(result())),
            WriteMemoryStep::Done(Ok(result()))
        );
    }
}

#[test]
fn the_words_of_a_failed_write() {
    assert_eq!(Context::WriteRequest.text(), "b00t soul write request");
    assert_eq!(Context::WriteResponse.text(), "b00t soul write response");
    assert_eq!(Context::WriteDecode.text(), "decode write response");
    assert_eq!(Context::CreateMemoryDir.text(), "create memory dir");
    assert_eq!(Context::ReadExisting.text(), "read existing");
    assert_eq!(Context::WriteMemoryFile.text(), "write memory file");
    assert_eq!(
        PathFault::Traversal.message("../x"),
        "path traversal in memory file: ../x"
    );
    assert_eq!(PathFault::Absolute.message("/x"), "absolute path not allowed: /x");
}

#[test]
fn the_memory_directory_is_found() {
    assert_eq!(MEMORY_DIR, "._b00t_");
    assert_eq!(HOME_SUBSTITUTE, "/tmp");
    assert_eq!(BaseRoot::detect(true, true), BaseRoot::CurrentDir);
    assert_eq!(BaseRoot::detect(true, false), BaseRoot::CurrentDir);
    assert_eq!(BaseRoot::detect(false, true), BaseRoot::HomeDir);
    assert_eq!(BaseRoot::detect(false, false), BaseRoot::Substitute);
}

#[test]
fn the_first_refused_part_decides() {
    assert_eq!(check_parts(&[]), Ok(()));
    assert_eq!(check_parts(&[PathPart::CurDir, PathPart::Normal]), Ok(()));
    assert_eq!(
        check_parts(&[PathPart::Normal, PathPart::ParentDir, PathPart::RootDir]),
        Err(PathFault::Traversal)
    );
    assert_eq!(
        check_parts(&[PathPart::RootDir, PathPart::ParentDir]),
        Err(PathFault::Absolute)
    );
    assert_eq!(
        check_parts(&[PathPart::Prefix, PathPart::ParentDir]),
        Err(PathFault::Absolute)
    );
}

#[test]
fn files_outside_of_the_memory_directory_are_refused() {
    for file in ["..", "../x", "a/..", "a/../b", "a//../b", "./../b"] {
        assert_eq!(check_file(file), Err(PathFault::Traversal), "{}", file);
    }
    for file in ["/", "/etc/passwd", "//x", "/../x"] {
        assert_eq!(check_file(file), Err(PathFault::Absolute), "{}", file);
    }
    for file in ["", ".", "SOUL.md", "a/b/c.md", "./a", "a/./b", "...", "..a", "a..", "a../b", "a..b.md"] {
        assert_eq!(check_file(file), Ok(()), "{}", file);
    }
    for file in ["12:30.md", ":", "notes/a:b.md", "ab:cd", "notes\\a.md", "a\\b/c", "a..\\b"] {
        assert_eq!(check_file(file), Ok(()), "{}", file);
    }
    assert_eq!(check_file("12:30/../x"), Err(PathFault::Traversal));
}

#[test]
fn a_write_without_append_replaces() {
    let mut files = Files::new();
    files.write_memory("a", "old", false).unwrap();
    files.write_memory("a", "new", false).unwrap();
    assert_eq!(files.texts["a"], "new");
    files.write_memory("b", " fresh ", true).unwrap();
    assert_eq!(files.texts["b"], " fresh ");
}

#[test]
fn entries_build_up() {
    let mut files = Files::new();
    files.write_memory("a", "one \n\n", false).unwrap();
    files.write_memory("a", "two\t", true).unwrap();
    assert_eq!(files.texts["a"], "one\n\ntwo\t");
    files.write_memory("a", "three", true).unwrap();
    assert_eq!(files.texts["a"], "one\n\ntwo\n\nthree");
    files.write_memory("a", " \n", true).unwrap();
    files.write_memory("a", "four", true).unwrap();
    assert_eq!(files.texts["a"], "one\n\ntwo\n\nthree\n\nfour");
}

#[test]
fn the_bytes_written_are_counted_in_utf8() {
    let mut files = Files::new();
    assert_eq!(files.write_memory("a", "h\u{e9}\u{1f462}", false).unwrap().bytes_written, 7);
    assert_eq!(files.write_memory("a", "x", true).unwrap().bytes_written, 10);
    assert_eq!(files.write_memory("b", "", false).unwrap().bytes_written, 0);
}

#[test]
fn white_space_at_the_end_goes_when_appending() {
    for n in 0..=0x0010_ffff_u32 {
        if let Some(c) = char::from_u32(n) {
            let mut text = String::from("a");
            text.push(c);
            let expected = matches!(
                n,
                0x9..=0xd
                    | 0x20
                    | 0x85
                    | 0xa0
                    | 0x1680
                    | 0x2000..=0x200a
                    | 0x2028
                    | 0x2029
                    | 0x202f
                    | 0x205f
                    | 0x3000
            );
            assert_eq!(append_content(&text, "") == "a\n\n", expected, "{:x}", n);
        }
    }
    assert_eq!(append_content("", "x"), "\n\nx");
    assert_eq!(append_content(" \n\t ", "x"), "\n\nx");
    assert_eq!(append_content(" a b ", "x"), " a b\n\nx");
}

#[test]
fn steps_that_fail_end_the_write() {
    let begun = ParentPending::write_memory("a", "text", true).unwrap();
    assert_eq!(begun, ParentPending { content: "text".to_string(), append: true });
    assert_eq!(
        begun.created(Err("full")),
        Err(Fault::Failed { context: Context::CreateMemoryDir, cause: "full" })
    );
    assert_eq!(
        ReadPending { content: "text".to_string() }.read(Err("gone")),
        Err(Fault::Failed { context: Context::ReadExisting, cause: "gone" })
    );
    assert_eq!(
        StorePending { content: "text".to_string() }.stored(Err("full"), "a".to_string()),
        Err(Fault::Failed { context: Context::WriteMemoryFile, cause: "full" })
    );
    assert_eq!(
        ProbePending { content: "text".to_string() }.probed(false),
        AfterProbe::Store(StorePending { content: "text".to_string() })
    );
}
