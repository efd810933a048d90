use try_ui::settings::{
    cores_down, cores_up, default_settings, memory_down, memory_index, memory_option, memory_up,
    parse_settings, settings_text, Settings, MEMORY_OPTIONS,
};

#[test]
fn settings_file_matches_the_xmake_reader() {
    let settings = Settings {
        cores: 6,
        mem: "12G".into(),
        audio: false,
    };
    let text = settings_text(&settings);
    assert_eq!(text, "cores=6\nmem=12G\naudio=off\n");
    let read = parse_settings(default_settings(10, 32, true), &text);
    assert_eq!(read.cores, 6);
    assert_eq!(read.mem, "12G");
    assert!(!read.audio);
    assert_eq!(memory_option(memory_index(&read.mem)), "12G");
}

#[test]
fn the_defaults_follow_the_host() {
    let big = default_settings(12, 32, true);
    assert_eq!((big.cores, big.mem.as_str(), big.audio), (8, "8G", true));
    let small = default_settings(4, 8, false);
    assert_eq!((small.cores, small.mem.as_str(), small.audio), (4, "4G", false));
}

#[test]
fn lines_the_reader_does_not_know_leave_the_settings_alone() {
    let read = parse_settings(
        default_settings(4, 8, false),
        " cores = 3 \r\nnoise\nmem= 16G\ncores=many\naudio=on\nother=1",
    );
    assert_eq!((read.cores, read.mem.as_str(), read.audio), (3, "16G", true));
    let off = parse_settings(default_settings(4, 8, true), "audio=yes\n");
    assert!(!off.audio);
    let empty = parse_settings(default_settings(4, 8, true), "");
    assert_eq!((empty.cores, empty.mem.as_str(), empty.audio), (4, "4G", true));
}

#[test]
fn the_panel_steps_through_the_resources() {
    assert_eq!(memory_index("2G"), 0);
    assert_eq!(memory_index("24G"), MEMORY_OPTIONS - 1);
    assert_eq!(memory_index("3G"), 3);
    assert_eq!(memory_down("2G"), "2G");
    assert_eq!(memory_down("12G"), "8G");
    assert_eq!(memory_up("24G"), "24G");
    assert_eq!(memory_up("odd"), "12G");
    assert_eq!(cores_down(1), 1);
    assert_eq!(cores_down(0), 1);
    assert_eq!(cores_down(5), 4);
    assert_eq!(cores_up(5, 8), 6);
    assert_eq!(cores_up(8, 8), 8);
}

#[test]
fn what_is_written_reads_back() {
    for (cores, mem, audio) in [(1, "2G", true), (4294967295, "24G", false), (12, "", true)] {
        let settings = Settings {
            cores,
            mem: mem.into(),
            audio,
        };
        let read = parse_settings(default_settings(3, 4, !audio), &settings_text(&settings));
        assert_eq!((read.cores, read.mem.as_str(), read.audio), (cores, mem, audio));
    }
}
