use nuphus::embed::{
    files_ready, input_text, log_is_full, min_file_size, missing_file, model_dir, status_failure,
    Download, DownloadEvent, EmbedderSlot, Init, InitEvent, InitPhase, Outcome, Progress,
    BGE_QUERY_PREFIX, PROGRESS_STEP,
};

#[test]
fn small_files_are_not_whole() {
    assert_eq!(min_file_size("config.json"), 100);
    assert_eq!(min_file_size("tokenizer.json"), 100 * 1024);
    assert_eq!(min_file_size("pytorch_model.bin"), 10 * 1024 * 1024);
    assert_eq!(min_file_size("other"), 1);
    let whole = vec![Some(10 * 1024 * 1024), Some(100 * 1024), Some(100)];
    assert!(files_ready(&whole));
    for i in 0..3 {
        let mut part = whole.clone();
        part[i] = part[i].map(|n| n - 1);
        assert!(!files_ready(&part));
        part[i] = None;
        assert!(!files_ready(&part));
    }
}

#[test]
fn file_is_fetched_from_the_next_place_after_failures() {
    let mut d = Download::download_model(Ok(()), Ok(()));
    assert_eq!(d.url(), None);
    d = d.advance(DownloadEvent::Size(None));
    assert_eq!(
        d.url().as_deref(),
        Some("https://hf-mirror.com/BAAI/bge-small-zh/resolve/main/pytorch_model.bin")
    );
    assert_eq!(d.delay_secs(), 0);
    d = d.advance(DownloadEvent::Fetched(Err("reset".to_string())));
    assert_eq!(d.delay_secs(), 1);
    d = d.advance(DownloadEvent::Fetched(Err("reset".to_string())));
    assert_eq!(d.delay_secs(), 2);
    d = d.advance(DownloadEvent::Fetched(Err("reset".to_string())));
    assert_eq!(
        d.url().as_deref(),
        Some("https://huggingface.co/BAAI/bge-small-zh/resolve/main/pytorch_model.bin")
    );
    d = d.advance(DownloadEvent::Fetched(Ok(17)));
    assert_eq!(
        d,
        Download::Over(Err("所有镜像下载 pytorch_model.bin 均失败: https://huggingface.co: pytorch_model.bin 体积异常 (17 bytes < 期望至少 10485760 bytes)".to_string()))
    );
}

#[test]
fn whole_files_are_passed_over() {
    let mut d = Download::download_model(Ok(()), Ok(()));
    d = d.advance(DownloadEvent::Size(Some(10 * 1024 * 1024)));
    d = d.advance(DownloadEvent::Size(Some(5)));
    d = d.advance(DownloadEvent::Fetched(Ok(200 * 1024)));
    d = d.advance(DownloadEvent::Size(Some(100)));
    assert_eq!(d, Download::Over(Ok(())));
    assert_eq!(
        Download::download_model(Err("ro".to_string()), Ok(())),
        Download::Over(Err("创建模型目录失败: ro".to_string()))
    );
    assert_eq!(
        Download::download_model(Ok(()), Err("tls".to_string())),
        Download::Over(Err("创建 HTTP 客户端失败: tls".to_string()))
    );
}

#[test]
fn progress_is_told_of_now_and_then() {
    let mut p = Progress::new();
    assert!(!p.report(10, 5 * PROGRESS_STEP));
    assert!(p.report(PROGRESS_STEP, 5 * PROGRESS_STEP));
    assert!(!p.report(PROGRESS_STEP + 1, 5 * PROGRESS_STEP));
    assert!(!p.report(3, 5 * PROGRESS_STEP));
    assert!(p.report(5 * PROGRESS_STEP, 5 * PROGRESS_STEP));
}

#[test]
fn weights_are_fetched_again_once() {
    let failed = |words: &str| InitEvent::Loaded(Err(words.to_string()));
    let run = Init::init(false)
        .advance(InitEvent::Looked(true))
        .advance(failed("bad weights"));
    assert_eq!(run.phase, InitPhase::Heal("bad weights".to_string()));
    assert!(run.healed);
    let run = run.advance(InitEvent::Fetched(Err("offline".to_string())));
    assert_eq!(
        run.phase,
        InitPhase::Over(Err("bad weights；重新下载失败: offline".to_string()))
    );
    let again = Init::init(run.healed)
        .advance(InitEvent::Looked(false))
        .advance(InitEvent::Fetched(Ok(())))
        .advance(failed("bad weights"));
    assert_eq!(
        again.phase,
        InitPhase::Over(Err(
            "模型加载失败且毒化自愈已尝试过，不再重下: bad weights".to_string()
        ))
    );
    let fine = Init::init(false)
        .advance(InitEvent::Looked(true))
        .advance(InitEvent::Loaded(Ok(())));
    assert_eq!(fine.phase, InitPhase::Over(Ok(())));
}

#[test]
fn first_error_is_told_of() {
    let mut slot: EmbedderSlot<u8> = EmbedderSlot::new();
    assert!(!slot.is_loaded());
    assert_eq!(
        slot.settle_at(Outcome::Failed("x".to_string()), "now".to_string()),
        Some("now [Embed] init failed: x".to_string())
    );
    assert_eq!(
        slot.settle_at(Outcome::Panicked, "now".to_string()),
        None
    );
    assert_eq!(slot.settle_at(Outcome::Ready(5), "now".to_string()), None);
    assert!(slot.is_loaded());
    slot.preload(6);
    assert_eq!(slot.loaded, Some(5));
    let told = slot.settle(Outcome::Panicked).unwrap();
    assert!(told.ends_with(" [Embed] init panicked in worker thread"));
    assert_eq!(told.find(' '), Some(10));
    assert_eq!(
        told.len(),
        19 + " [Embed] init panicked in worker thread".len()
    );
}

#[test]
fn small_things_are_said_plainly() {
    assert_eq!(status_failure(204, None), None);
    assert_eq!(
        status_failure(404, Some("Not Found")).as_deref(),
        Some("HTTP 404 Not Found")
    );
    assert_eq!(status_failure(599, None).as_deref(), Some("HTTP 599 "));
    assert_eq!(missing_file(true, true, true, "/m"), None);
    assert_eq!(
        missing_file(false, false, false, "/m").as_deref(),
        Some("pytorch_model.bin not found in /m")
    );
    assert_eq!(
        missing_file(true, true, false, "/m").as_deref(),
        Some("config.json not found in /m")
    );
    assert!(log_is_full(Some(1024 * 1024 + 1)));
    assert!(!log_is_full(Some(1024 * 1024)) && !log_is_full(None));
    assert_eq!(input_text("q", true), format!("{BGE_QUERY_PREFIX}q"));
    assert_eq!(input_text("q", false), "q");
    let place = model_dir(false, None, Some("/d".to_string()));
    assert_eq!(place.parts, vec!["nuphus", "models", "bge-small-zh"]);
}
