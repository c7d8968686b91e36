use std::collections::HashMap;

use offregisters_lib::batch::{Action, Batch, CacheRead};
use offregisters_lib::error::{DownloadError, RequestTimeoutError};
use offregisters_lib::response::DownloadResponse;
use offregisters_lib::result_map::ResultMap;
use offregisters_lib::target::Target;

const URLS: [&str; 4] = [
    "http://detectportal.firefox.com/success.txt",
    "http://www.msftncsi.com/ncsi.txt",
    "http://connectivitycheck.gstatic.com/generate_204",
    "http://www.apple.com/library/test/success.html",
];

fn targets(urls: &[&str]) -> Vec<Target> {
    urls.iter().map(|u| Target::parse(u).unwrap()).collect()
}

fn ok(status: u16, body: &str) -> Result<DownloadResponse, DownloadError> {
    Ok(DownloadResponse { status, raw: Some(body.as_bytes().to_vec()), downloaded_to: None })
}

/// The files, the answers still to give, and what was done.
struct Sim {
    disk: HashMap<String, Vec<u8>>,
    unreadable: Vec<String>,
    answers: Vec<Result<DownloadResponse, DownloadError>>,
    fail_writes: bool,
    fetched: Vec<String>,
    written: Vec<String>,
    read: Vec<String>,
}

impl Sim {
    fn new(answers: Vec<Result<DownloadResponse, DownloadError>>) -> Sim {
        Sim {
            disk: HashMap::new(),
            unreadable: vec![],
            answers,
            fail_writes: false,
            fetched: vec![],
            written: vec![],
            read: vec![],
        }
    }

    fn run(&mut self, mut batch: Batch) -> Result<ResultMap, DownloadError> {
        loop {
            let action = match batch.next_action() {
                Action::ReadCache(p) => Step::Read(p.to_string()),
                Action::Fetch(u) => Step::Fetch(u.to_string()),
                Action::Write(p, body) => Step::Write(p.to_string(), body.to_vec()),
                Action::Finished => break,
            };
            match action {
                Step::Read(p) => {
                    self.read.push(p.clone());
                    let r = if self.unreadable.contains(&p) {
                        CacheRead::Unreadable
                    } else {
                        match self.disk.get(&p) {
                            Some(b) => CacheRead::Hit(b.clone()),
                            None => CacheRead::Missing,
                        }
                    };
                    batch.on_cache_read(r);
                }
                Step::Fetch(u) => {
                    self.fetched.push(u);
                    let r = if self.answers.is_empty() {
                        Err(DownloadError::TransportError)
                    } else {
                        self.answers.remove(0)
                    };
                    batch.on_fetched(r);
                }
                Step::Write(p, body) => {
                    if self.fail_writes {
                        batch.on_written(false);
                    } else {
                        self.written.push(p.clone());
                        self.unreadable.retain(|q| q != &p);
                        self.disk.insert(p, body);
                        batch.on_written(true);
                    }
                }
            }
        }
        assert!(batch.is_finished());
        batch.finish()
    }
}

enum Step {
    Read(String),
    Fetch(String),
    Write(String, Vec<u8>),
}

fn four_answers() -> Vec<Result<DownloadResponse, DownloadError>> {
    vec![
        ok(200, "success\n"),
        ok(200, "Microsoft NCSI"),
        ok(200, "no content"),
        ok(200, "<HTML><HEAD><TITLE>Success</TITLE></HEAD><BODY>Success</BODY></HTML>"),
    ]
}

#[test]
fn in_memory_batch_fetches_each_url() {
    let mut sim = Sim::new(four_answers());
    let map = sim.run(Batch::new(None, targets(&URLS), false)).unwrap();
    assert_eq!(sim.fetched, URLS.to_vec());
    assert!(sim.read.is_empty());
    assert!(sim.written.is_empty());
    for u in URLS.iter() {
        assert!(map.contains_key(u));
        assert_eq!(map.get(u).unwrap().downloaded_to, None);
    }
    let ncsi = map.get(URLS[1]).unwrap();
    assert_eq!(ncsi.status, 200);
    assert_eq!(ncsi.response_text(), Ok("Microsoft NCSI".to_string()));
}

#[test]
fn batch_to_dir_writes_each_body() {
    let mut sim = Sim::new(four_answers());
    let map = sim.run(Batch::new(Some("/tmp/t".to_string()), targets(&URLS), false)).unwrap();
    let files = ["success.txt", "ncsi.txt", "generate_204", "success.html"];
    let paths: Vec<String> = files.iter().map(|f| format!("/tmp/t/{}", f)).collect();
    assert_eq!(sim.read, paths);
    assert_eq!(sim.written, paths);
    assert_eq!(sim.fetched.len(), 4);
    for (u, p) in URLS.iter().zip(paths.iter()) {
        let r = map.get(u).unwrap();
        assert_eq!(r.downloaded_to.as_deref(), Some(p.as_str()));
        assert_eq!(r.raw.as_ref(), sim.disk.get(p));
    }
}

#[test]
fn second_batch_is_served_from_cache() {
    let mut sim = Sim::new(vec![ok(204, "first"), ok(200, "second")]);
    let urls = [URLS[2], URLS[1]];
    let first = sim.run(Batch::new(Some("/c".to_string()), targets(&urls), false)).unwrap();
    assert_eq!(sim.fetched.len(), 2);
    assert_eq!(sim.written.len(), 2);
    sim.answers = vec![ok(200, "changed"), ok(200, "changed")];
    let second = sim.run(Batch::new(Some("/c".to_string()), targets(&urls), false)).unwrap();
    assert_eq!(sim.fetched.len(), 2);
    assert_eq!(sim.written.len(), 2);
    for u in urls.iter() {
        let a = first.get(u).unwrap();
        let b = second.get(u).unwrap();
        assert_eq!(a.raw, b.raw);
        assert_eq!(a.downloaded_to, b.downloaded_to);
        assert_eq!(b.status, 200);
    }
    assert_eq!(first.get(URLS[2]).unwrap().status, 204);
}

#[test]
fn upsert_fetches_despite_cached_copy() {
    let mut sim = Sim::new(vec![ok(200, "fresh")]);
    sim.disk.insert("/c/success.txt".to_string(), b"stale".to_vec());
    let map = sim.run(Batch::new(Some("/c".to_string()), targets(&URLS[..1]), true)).unwrap();
    assert!(sim.read.is_empty());
    assert_eq!(sim.fetched, vec![URLS[0].to_string()]);
    assert_eq!(sim.written, vec!["/c/success.txt".to_string()]);
    assert_eq!(sim.disk.get("/c/success.txt"), Some(&b"fresh".to_vec()));
    assert_eq!(map.get(URLS[0]).unwrap().raw, Some(b"fresh".to_vec()));
}

#[test]
fn without_upsert_cached_copy_is_used() {
    let mut sim = Sim::new(vec![]);
    sim.disk.insert("/c/success.txt".to_string(), b"stale".to_vec());
    let map = sim.run(Batch::new(Some("/c".to_string()), targets(&URLS[..1]), false)).unwrap();
    assert!(sim.fetched.is_empty());
    let r = map.get(URLS[0]).unwrap();
    assert_eq!(r.status, 200);
    assert_eq!(r.raw, Some(b"stale".to_vec()));
    assert_eq!(r.downloaded_to.as_deref(), Some("/c/success.txt"));
}

#[test]
fn unreadable_cache_falls_back_to_network() {
    let mut sim = Sim::new(vec![ok(200, "fresh")]);
    sim.disk.insert("/c/success.txt".to_string(), b"stale".to_vec());
    sim.unreadable.push("/c/success.txt".to_string());
    let map = sim.run(Batch::new(Some("/c".to_string()), targets(&URLS[..1]), false)).unwrap();
    assert_eq!(sim.fetched.len(), 1);
    assert_eq!(sim.written, vec!["/c/success.txt".to_string()]);
    assert_eq!(map.get(URLS[0]).unwrap().raw, Some(b"fresh".to_vec()));
}

#[test]
fn one_failing_url_fails_the_batch() {
    let timeout = DownloadError::RequestTimeout(RequestTimeoutError);
    let mut sim = Sim::new(vec![ok(200, "a"), ok(200, "b"), Err(timeout), ok(200, "d")]);
    let r = sim.run(Batch::new(None, targets(&URLS), false));
    assert_eq!(r.unwrap_err(), timeout);
    assert_eq!(sim.fetched.len(), 3);
}

#[test]
fn empty_basename_fails_the_batch() {
    let mut sim = Sim::new(vec![ok(200, "a")]);
    let urls = [URLS[0], "http://host/"];
    let r = sim.run(Batch::new(Some("/c".to_string()), targets(&urls), false));
    assert_eq!(r.unwrap_err(), DownloadError::InvalidDestination);
    assert_eq!(sim.fetched.len(), 1);
}

#[test]
fn empty_basename_is_fine_in_memory() {
    let mut sim = Sim::new(vec![ok(200, "root")]);
    let map = sim.run(Batch::new(None, targets(&["http://host/"]), false)).unwrap();
    assert_eq!(map.get("http://host/").unwrap().raw, Some(b"root".to_vec()));
}

#[test]
fn empty_body_fails_the_batch() {
    let mut sim = Sim::new(vec![ok(204, "")]);
    let r = sim.run(Batch::new(None, targets(&URLS[2..3]), false));
    assert_eq!(r.unwrap_err(), DownloadError::EmptyResponse);
    let mut sim = Sim::new(vec![Ok(DownloadResponse { status: 200, raw: None, downloaded_to: None })]);
    let r = sim.run(Batch::new(None, targets(&URLS[..1]), false));
    assert_eq!(r.unwrap_err(), DownloadError::EmptyResponse);
}

#[test]
fn failed_write_fails_the_batch() {
    let mut sim = Sim::new(vec![ok(200, "a")]);
    sim.fail_writes = true;
    let r = sim.run(Batch::new(Some("/c".to_string()), targets(&URLS[..1]), false));
    assert_eq!(r.unwrap_err(), DownloadError::FilesystemError);
}

#[test]
fn transport_error_fails_the_batch() {
    let mut sim = Sim::new(vec![Err(DownloadError::TransportError)]);
    let r = sim.run(Batch::new(None, targets(&URLS[..1]), false));
    assert_eq!(r.unwrap_err(), DownloadError::TransportError);
}

#[test]
fn repeated_url_has_one_entry() {
    let mut sim = Sim::new(vec![ok(200, "once")]);
    let urls = [URLS[0], URLS[0]];
    let map = sim.run(Batch::new(Some("/c".to_string()), targets(&urls), false)).unwrap();
    assert_eq!(sim.fetched.len(), 1);
    assert_eq!(map.into_entries().len(), 1);
}

#[test]
fn empty_batch_is_done_at_once() {
    let batch = Batch::new(None, vec![], false);
    assert!(batch.is_finished());
    assert_eq!(batch.finish().unwrap().into_entries().len(), 0);
}
