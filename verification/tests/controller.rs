use quest_presence::placeholder::Config;
use quest_presence::placeholder::TextRenderer;
use quest_presence::placeholder::parse_args;
use quest_presence::process::CatalogSource;
use quest_presence::process::catalog_url;
use quest_presence::process::materialize;
use quest_presence::process::spawn;
use quest_presence::process::stop;
use quest_presence::process::stop_outcome;
use quest_presence::text::u64_to_string;
use quest_presence::process::failure_message;
use quest_presence::process::FailureStage;

#[test]
fn materialize_plans_deterministic_layout() {
    let plan = materialize("root", 999, "sub/dir", "game.exe", "template.exe");
    assert_eq!(plan.game_folder, "root/games/999/sub/dir");
    assert_eq!(plan.target_executable, "root/games/999/sub/dir/game.exe");
    assert_eq!(plan.source, "template.exe");
}

#[test]
fn materialize_twice_plans_identical_paths() {
    let a = materialize("root", 999, "sub/dir", "game.exe", "template.exe");
    let b = materialize("root", 999, "sub/dir", "game.exe", "template.exe");
    assert_eq!(a.game_folder, b.game_folder);
    assert_eq!(a.target_executable, b.target_executable);
    assert_eq!(a.source, b.source);
}

#[test]
fn spawn_plans_working_dir_and_title_argument() {
    let plan = spawn("Title", "sub/dir", "game.exe", 999, "root");
    assert_eq!(plan.working_dir, "root/games/999/sub/dir");
    assert_eq!(plan.program, "root/games/999/sub/dir/game.exe");
    assert_eq!(plan.args, vec!["--title".to_string(), "Title".to_string()]);
}

#[test]
fn stop_plans_forceful_kill_by_name() {
    let plan = stop("game.exe");
    assert_eq!(plan.program, "taskkill");
    assert_eq!(plan.args, vec!["/F".to_string(), "/IM".to_string(), "game.exe".to_string()]);
}

#[test]
fn stop_failure_surfaces_tool_diagnostics() {
    let stderr = "ERROR: The process \"game.exe\" not found.";
    let r = stop_outcome(false, stderr);
    let e = r.err().unwrap();
    assert_eq!(
        e.message,
        "Failed to stop process: ERROR: The process \"game.exe\" not found."
    );
}

#[test]
fn stop_success_is_ok() {
    assert!(stop_outcome(true, "").is_ok());
}

#[test]
fn catalog_urls_are_fixed() {
    assert_eq!(
        catalog_url(CatalogSource::Primary),
        "https://discord.com/api/applications/detectable"
    );
    assert_eq!(
        catalog_url(CatalogSource::Mirror),
        "https://markterence.github.io/discord-quest-completer/detectable.json"
    );
}

#[test]
fn u64_renders_in_decimal() {
    assert_eq!(u64_to_string(0), "0");
    assert_eq!(u64_to_string(12345), "12345");
    assert_eq!(u64_to_string(u64::MAX), "18446744073709551615");
}

#[test]
fn default_config() {
    let c = Config::default();
    assert_eq!(c.title, "Discord Quest Completer");
    assert!(!c.start_minimized);
}

#[test]
fn parse_args_reads_title_and_tray() {
    let args = vec![
        "prog".to_string(),
        "--title".to_string(),
        "My Game".to_string(),
        "--tray".to_string(),
    ];
    let c = parse_args(&args);
    assert_eq!(c.title, "My Game");
    assert!(c.start_minimized);
}

#[test]
fn parse_args_ignores_title_without_value() {
    let args = vec!["prog".to_string(), "--title".to_string()];
    let c = parse_args(&args);
    assert_eq!(c.title, "Discord Quest Completer");
    assert!(!c.start_minimized);
}

#[test]
fn parse_args_skips_unknown_arguments() {
    let args = vec![
        "prog".to_string(),
        "-v".to_string(),
        "--tray".to_string(),
        "extra".to_string(),
    ];
    let c = parse_args(&args);
    assert_eq!(c.title, "Discord Quest Completer");
    assert!(c.start_minimized);
}

#[test]
fn padded_width_adds_padding_or_falls_back() {
    assert_eq!(quest_presence::placeholder::padded_width(Some(37)), 57);
    assert_eq!(quest_presence::placeholder::padded_width(None), 200);
}

#[test]
fn renderer_keeps_dimensions() {
    let r = TextRenderer::new(400, 400, 2);
    assert_eq!(r.width, 400);
    assert_eq!(r.height, 400);
    assert_eq!(r.font_size, 2);
}

#[test]
fn draw_paints_glyph_cells_white() {
    let r = TextRenderer::new(10, 10, 1);
    let mut buffer = vec![0u32; 100];
    r.draw(&mut buffer, (0, 0), "A");
    for py in 0..7 {
        for px in 0..5 {
            assert_eq!(buffer[py * 10 + px], 0xFFFFFFFF);
        }
    }
    // The column between glyph cells stays untouched.
    for py in 0..7 {
        assert_eq!(buffer[py * 10 + 5], 0);
    }
    // Rows below the glyph stay untouched.
    for px in 0..10 {
        assert_eq!(buffer[7 * 10 + px], 0);
    }
}

#[test]
fn draw_advances_by_six_font_units_per_character() {
    let r = TextRenderer::new(20, 10, 1);
    let mut buffer = vec![0u32; 200];
    r.draw(&mut buffer, (0, 0), "AB");
    assert_eq!(buffer[0], 0xFFFFFFFF);
    assert_eq!(buffer[5], 0);
    assert_eq!(buffer[6], 0xFFFFFFFF);
    assert_eq!(buffer[10], 0xFFFFFFFF);
}

#[test]
fn draw_skips_writes_outside_the_buffer() {
    let r = TextRenderer::new(10, 10, 1);
    let mut buffer = vec![0u32; 10];
    r.draw(&mut buffer, (6, 0), "AA");
    assert_eq!(buffer.len(), 10);
    for px in 0..4 {
        assert_eq!(buffer[6 + px], 0xFFFFFFFF);
    }
    for px in 0..6 {
        assert_eq!(buffer[px], 0);
    }
}

#[test]
fn failure_messages_carry_os_error_text() {
    assert_eq!(
        failure_message(FailureStage::CreateFolder, "denied"),
        "Failed to create game folder: denied"
    );
    assert_eq!(
        failure_message(FailureStage::CopyExecutable, "gone"),
        "Failed to copy dummy executable: gone"
    );
    assert_eq!(
        failure_message(FailureStage::StartProcess, "no file"),
        "Failed to start process: no file"
    );
    assert_eq!(
        failure_message(FailureStage::LaunchKillTool, "missing"),
        "Failed to execute taskkill: missing"
    );
}
