use panda_dl::launch::{youtube_notice, Notice};
use panda_dl::youtube::{Progress, YoutubeManager};

fn some(s: &str) -> Option<String> {
    Some(s.to_string())
}

#[test]
fn tells_the_program_what_to_fetch() {
    let _ = YoutubeManager::new();
    assert_eq!(
        YoutubeManager::download_args("https://youtu.be/x", "/v"),
        vec!["--newline", "-o", "/v/%(title)s.%(ext)s", "https://youtu.be/x"]
    );
}

#[test]
fn asks_the_program_for_titles() {
    assert_eq!(
        YoutubeManager::title_args("https://youtu.be/x"),
        vec!["--get-title", "https://youtu.be/x"]
    );
}

#[test]
fn reads_progress() {
    for (line, percent, size, unit) in [
        ("[download]  42.5% of 10.00MiB at 1.00MiB/s ETA 00:05", "42.5", "10.00", "MiB"),
        ("[download] 100% of ~ 1.5GiB in 00:10", "100", "1.5", "GiB"),
        ("[download]   0.0% of ~512.00KiB", "0.0", "512.00", "KiB"),
        ("x [download] 7% of 3B", "7", "3", "B"),
        ("[download] 7% of 3TiB", "7", "3", "TiB"),
    ] {
        assert_eq!(
            YoutubeManager::progress(line),
            Some(Progress {
                percent: percent.to_string(),
                size: size.to_string(),
                unit: unit.to_string(),
            }),
            "{:?}",
            line
        );
    }
    for line in ["", "[download] Destination: x.mp4", "[download] 5% of 3XB", "5% of 3MiB"] {
        assert_eq!(YoutubeManager::progress(line), None, "{:?}", line);
    }
}

#[test]
fn reads_the_groups_of_a_match() {
    let groups = Some(vec![some("all"), some("1"), some("2"), some("B")]);
    assert_eq!(
        YoutubeManager::read_progress(&groups),
        Some(Progress { percent: "1".to_string(), size: "2".to_string(), unit: "B".to_string() })
    );
    assert_eq!(YoutubeManager::read_progress(&None), None);
    assert_eq!(YoutubeManager::read_progress(&Some(vec![some("all"), some("1"), some("2")])), None);
    assert_eq!(
        YoutubeManager::read_progress(&Some(vec![some("all"), some("1"), None, some("B")])),
        None
    );
}

#[test]
fn reads_what_is_written() {
    for (line, path) in [
        ("[download] Destination: /v/A b.f137.mp4", some("/v/A b.f137.mp4")),
        ("[Merger] Merging formats into \"/v/A \"b\".mkv\"", some("/v/A \"b\".mkv")),
        ("[download] Destination: ", None),
        ("[Merger] Merging formats into \"\"", None),
        ("[Merger] Merging formats into \"/v/x", None),
        ("[download]  42.5% of 10.00MiB", None),
        ("[download] /v/x.mp4 has already been downloaded", None),
        ("", None),
    ] {
        assert_eq!(YoutubeManager::written_file(line), path, "{:?}", line);
    }
}

#[test]
fn reads_sizes() {
    assert_eq!(YoutubeManager::size_number(" ~1~0.5 "), "10.5");
    assert_eq!(YoutubeManager::size_number("3"), "3");
    assert_eq!(YoutubeManager::size_number("~"), "");
    for (unit, factor) in [
        ("B", 1),
        (" KiB ", 1024),
        ("MiB", 1048576),
        ("GiB", 1073741824),
        ("TiB", 1),
        ("kib", 1),
        ("", 1),
    ] {
        assert_eq!(YoutubeManager::unit_factor(unit), factor, "{:?}", unit);
    }
}

#[test]
fn says_why_a_video_failed() {
    assert_eq!(YoutubeManager::failure(true, "exit status: 0"), None);
    assert_eq!(
        YoutubeManager::failure(false, "exit status: 1"),
        some("yt-dlp failed with status exit status: 1")
    );
}

#[test]
fn reads_titles() {
    assert_eq!(YoutubeManager::get_title(true, "  A Title\n"), some("A Title"));
    assert_eq!(YoutubeManager::get_title(true, " \n"), None);
    assert_eq!(YoutubeManager::get_title(false, "A Title"), None);
}

#[test]
fn tells_of_complete_videos() {
    assert_eq!(
        youtube_notice(false, false, "A Title".to_string()),
        Some(Notice {
            title: "YouTube Download Complete".to_string(),
            body: "A Title".to_string(),
        })
    );
    assert_eq!(youtube_notice(true, false, "A".to_string()), None);
    assert_eq!(youtube_notice(false, true, "A".to_string()), None);
}

#[test]
fn tells_the_desktop() {
    let notice = Notice { title: "T".to_string(), body: "B".to_string() };
    assert_eq!(
        notice.send_notification(),
        vec!["-a", "Panda Downloader", "-i", "download", "T", "B"]
    );
}
