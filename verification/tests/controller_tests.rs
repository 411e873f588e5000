use stock_chart::config::Config;
use stock_chart::controller::{Controller, Effect, Event, Phase};
use stock_chart::error::{Fault, LoadError};
use stock_chart::loader::load;
use stock_chart::mapper::Point;
use stock_chart::render::{ChartKind, Shape};
use stock_chart::series::{Record, Series};
use stock_chart::shortcuts::{shortcut, Key, Modifiers};

const NOW: i64 = 1_719_705_600;
const DAY: i64 = 86_400;

fn at(x: i32, y: i32) -> Event {
    Event::PointerMoved(Point { x, y })
}

fn daily(count: i64, step: i64, last: i64) -> String {
    let mut table = String::from("Date,Open,High,Low,Close,Volume\n");
    for k in 0..count {
        let instant = chrono::DateTime::from_timestamp(last - k * step, 0).unwrap();
        let date = instant.format("%Y-%m-%d %H:%M:%S%z").to_string();
        table.push_str(&format!("{},{}.5,{}.75,{}.25,{}.6,{}\n", date, k, k, k, k, 1000 + k));
    }
    table
}

fn record(timestamp: i64, close: i64) -> Record {
    Record { timestamp, open: close - 1, high: close + 2, low: close - 2, close, volume: 10 }
}

fn ready(rows: Vec<Record>) -> Controller {
    let mut controller = Controller::new(Config::default(), String::from("aapl"), 1800);
    assert_eq!(
        controller.handle(Event::SubmitLoad, NOW),
        Effect::StartLoad { ticker: String::from("AAPL"), generation: 1 }
    );
    let series = Series::from_rows(rows);
    assert_eq!(
        controller.handle(Event::LoadSucceeded { generation: 1, series }, NOW),
        Effect::Nothing
    );
    controller
}

fn hundred() -> Vec<Record> {
    (0..100).map(|k| record(NOW - 99 * DAY + k * DAY, 1000 + k)).collect()
}

#[test]
fn controller_starts_idle_and_empty() {
    let controller = Controller::new(Config::default(), String::from("NVDA"), 1800);
    assert_eq!(controller.phase(), Phase::Idle);
    assert_eq!(controller.ticker_input(), "NVDA");
    assert_eq!(controller.requested(), "");
    assert_eq!(controller.generation(), 0);
    assert_eq!(controller.series().len(), 0);
    assert_eq!(controller.window().len(), 0);
    assert_eq!(controller.selection(), None);
    assert_eq!(controller.selected_record(), None);
    assert_eq!(controller.pointer(), None);
    assert_eq!(controller.error(), None);
    assert_eq!(controller.error_message(), None);
    assert!(!controller.is_fullscreen());
    assert_eq!(controller.surface_width(), 1800);
    assert_eq!(controller.config(), Config::default());
    assert!(controller.price_frame().placeholder);
    assert!(controller.volume_frame().placeholder);
    assert_eq!(controller.status_line(), stock_chart::status::BLANK);
}

#[test]
fn status_follows_the_selection() {
    let mut controller = ready(vec![record(NOW - DAY, 2_000_000), record(NOW, 3_000_000)]);
    assert_eq!(controller.status_line(), stock_chart::status::BLANK);
    controller.handle(at(1740, 0), NOW);
    assert_eq!(
        controller.status_line(),
        "Date: 2024-06-30 | Daily % Gain/Loss:    50.00% | Volume:           10 | Open:     3.00 | High:     3.00 | Low:     3.00 | Close:     3.00"
    );
    controller.handle(Event::PointerLeft, NOW);
    assert_eq!(controller.status_line(), stock_chart::status::BLANK);
}

#[test]
fn default_settings() {
    let config = Config::default();
    assert_eq!(config.window_seconds, 180 * 86_400);
    assert_eq!(config.pointer_threshold, 5);
    assert_eq!(config.tick_millis, 50);
    assert_eq!((config.margin_left, config.margin_right), (60, 60));
    assert_eq!((config.price_share, config.volume_share), (8, 2));
    assert_eq!(config.plot_region(1800), (60, 1740));
    assert_eq!(config.plot_region(100), (60, 40));
    assert_eq!(config.plot_region(i32::MIN), (60, i32::MIN));
    assert_eq!(config.plot_region(i32::MAX), (60, i32::MAX - 60));
}

#[test]
fn changed_text_starts_no_load() {
    let mut controller = Controller::new(Config::default(), String::new(), 1800);
    let effect = controller.handle(Event::TickerChanged(String::from("ms")), NOW);
    assert_eq!(effect, Effect::Nothing);
    assert_eq!(controller.ticker_input(), "ms");
    assert_eq!(controller.phase(), Phase::Idle);
    assert_eq!(controller.generation(), 0);
}

#[test]
fn submitted_ticker_is_loaded_in_upper_case() {
    let mut controller = Controller::new(Config::default(), String::from("msft"), 1800);
    let effect = controller.handle(Event::SubmitLoad, NOW);
    assert_eq!(effect, Effect::StartLoad { ticker: String::from("MSFT"), generation: 1 });
    assert_eq!(controller.phase(), Phase::Loading);
    assert_eq!(controller.requested(), "MSFT");
    assert_eq!(controller.ticker_input(), "msft");
    let effect = controller.handle(Event::SubmitLoad, NOW);
    assert_eq!(effect, Effect::StartLoad { ticker: String::from("MSFT"), generation: 2 });
}

#[test]
fn two_years_of_rows_show_the_last_180_days() {
    let table = daily(200, 315_360, NOW);
    let mut controller = Controller::new(Config::default(), String::from("aapl"), 1800);
    let effect = controller.handle(Event::SubmitLoad, NOW);
    assert_eq!(effect, Effect::StartLoad { ticker: String::from("AAPL"), generation: 1 });
    let series = load(Some(table.as_bytes())).unwrap();
    assert_eq!(series.len(), 200);
    controller.handle(Event::LoadSucceeded { generation: 1, series }, NOW);
    assert_eq!(controller.phase(), Phase::Ready);
    assert_eq!(controller.series().len(), 200);
    let shown = controller.window().records().clone();
    assert_eq!(shown.len(), 50);
    assert!(shown.iter().all(|r| r.timestamp >= NOW - 180 * DAY));
    assert_eq!(shown[0].timestamp, NOW - 49 * 315_360);
    assert_eq!(shown[49].timestamp, NOW);
    assert_eq!(controller.selection(), None);

    controller.handle(at(900, 300), NOW);
    assert_eq!(controller.selection(), Some(25));
    assert_eq!(controller.selected_record(), Some(shown[25]));
    assert_eq!(controller.price_frame().shapes.len(), 53);
    assert_eq!(controller.volume_frame().shapes.len(), 50);

    controller.handle(at(1741, 300), NOW);
    assert_eq!(controller.selection(), None);
    assert_eq!(controller.pointer(), Some(Point { x: 1741, y: 300 }));
    assert_eq!(controller.price_frame().shapes.len(), 50);
}

#[test]
fn window_is_taken_as_of_the_load() {
    let mut controller = ready(hundred());
    assert_eq!(controller.window().len(), 100);
    controller.handle(Event::SubmitLoad, NOW + 50 * DAY);
    let series = Series::from_rows(hundred());
    controller.handle(Event::LoadSucceeded { generation: 2, series }, NOW + 100 * DAY);
    assert_eq!(controller.series().len(), 100);
    assert_eq!(controller.window().len(), 81);
    assert_eq!(controller.window().records()[0].timestamp, NOW - 80 * DAY);
}

#[test]
fn missing_ticker_leaves_nothing_on_display() {
    let mut controller = ready(hundred());
    controller.handle(at(900, 10), NOW);
    assert!(controller.selection().is_some());
    controller.handle(Event::TickerChanged(String::from("nope")), NOW);
    let effect = controller.handle(Event::SubmitLoad, NOW);
    assert_eq!(effect, Effect::StartLoad { ticker: String::from("NOPE"), generation: 2 });
    let reason = load(None).unwrap_err();
    assert_eq!(reason, LoadError::ResourceNotFound);
    controller.handle(Event::LoadFailed { generation: 2, reason }, NOW);
    assert_eq!(controller.phase(), Phase::Failed);
    assert_eq!(controller.series().len(), 0);
    assert_eq!(controller.window().len(), 0);
    assert_eq!(controller.selection(), None);
    assert_eq!(controller.error(), Some(LoadError::ResourceNotFound));
    assert_eq!(
        controller.error_message(),
        Some(String::from("Data file not found for ticker: NOPE"))
    );
    assert!(controller.price_frame().placeholder);
    assert!(controller.volume_frame().placeholder);

    controller.handle(Event::TickerChanged(String::from("msft")), NOW);
    controller.handle(Event::SubmitLoad, NOW);
    let rows = vec![record(NOW - DAY, 7), record(NOW, 8)];
    let series = Series::from_rows(rows.clone());
    controller.handle(Event::LoadSucceeded { generation: 3, series }, NOW);
    assert_eq!(controller.phase(), Phase::Ready);
    assert_eq!(controller.series().records(), &rows);
    assert_eq!(controller.window().records(), &rows);
    assert_eq!(controller.selection(), None);
    assert_eq!(controller.error(), None);
    assert_eq!(controller.error_message(), None);
    assert_eq!(controller.requested(), "MSFT");
}

#[test]
fn unparsable_date_clears_what_was_loaded() {
    let mut controller = ready(hundred());
    controller.handle(at(900, 10), NOW);
    assert_eq!(controller.selection(), Some(50));
    controller.handle(Event::SubmitLoad, NOW);
    assert_eq!(controller.window().len(), 100);
    let table = "Date,Open,High,Low,Close,Volume\n\
        2024-01-02 00:00:00-0500,1,1,1,1,1\n\
        2024-01-03,2,2,2,2,2\n";
    let reason = load(Some(table.as_bytes())).unwrap_err();
    assert_eq!(reason, LoadError::Parse { line: 2, fault: Fault::Timestamp });
    controller.handle(Event::LoadFailed { generation: 2, reason }, NOW);
    assert_eq!(controller.phase(), Phase::Failed);
    assert_eq!(controller.series().len(), 0);
    assert_eq!(controller.window().len(), 0);
    assert_eq!(controller.selection(), None);
    assert_eq!(controller.error_message(), Some(String::from("line 2: invalid timestamp")));
}

#[test]
fn outcome_of_a_superseded_load_is_dropped() {
    let mut controller = Controller::new(Config::default(), String::from("a"), 1800);
    controller.handle(Event::SubmitLoad, NOW);
    controller.handle(Event::TickerChanged(String::from("b")), NOW);
    controller.handle(Event::SubmitLoad, NOW);
    let first = Series::from_rows(vec![record(NOW, 1)]);
    controller.handle(Event::LoadSucceeded { generation: 1, series: first }, NOW);
    assert_eq!(controller.phase(), Phase::Loading);
    assert_eq!(controller.series().len(), 0);
    controller.handle(
        Event::LoadFailed { generation: 1, reason: LoadError::ResourceNotFound },
        NOW,
    );
    assert_eq!(controller.phase(), Phase::Loading);
    assert_eq!(controller.error(), None);
    let second = Series::from_rows(vec![record(NOW, 2), record(NOW, 3)]);
    controller.handle(Event::LoadSucceeded { generation: 2, series: second }, NOW);
    assert_eq!(controller.phase(), Phase::Ready);
    assert_eq!(controller.series().len(), 2);
}

#[test]
fn outcome_that_is_not_awaited_is_dropped() {
    let mut controller = ready(hundred());
    let series = Series::from_rows(vec![record(NOW, 1)]);
    controller.handle(Event::LoadSucceeded { generation: 1, series }, NOW);
    assert_eq!(controller.series().len(), 100);
    controller.handle(
        Event::LoadFailed { generation: 1, reason: LoadError::ResourceNotFound },
        NOW,
    );
    assert_eq!(controller.phase(), Phase::Ready);
    assert_eq!(controller.series().len(), 100);
    let mut idle = Controller::new(Config::default(), String::new(), 1800);
    let series = Series::from_rows(vec![record(NOW, 1)]);
    idle.handle(Event::LoadSucceeded { generation: 0, series }, NOW);
    assert_eq!(idle.phase(), Phase::Idle);
    assert_eq!(idle.series().len(), 0);
}

#[test]
fn pointer_selects_the_record_under_it() {
    let mut controller = ready(hundred());
    controller.handle(at(60, 0), NOW);
    assert_eq!(controller.selection(), Some(0));
    controller.handle(at(1740, 0), NOW);
    assert_eq!(controller.selection(), Some(99));
    controller.handle(at(900, 0), NOW);
    assert_eq!(controller.selection(), Some(50));
    assert_eq!(controller.selected_record().unwrap().close, 1050);
    controller.handle(at(59, 0), NOW);
    assert_eq!(controller.selection(), None);
}

#[test]
fn small_moves_of_the_pointer_are_passed_over() {
    let mut controller = ready(hundred());
    controller.handle(at(900, 100), NOW);
    assert_eq!(controller.selection(), Some(50));
    controller.handle(at(903, 104), NOW);
    assert_eq!(controller.pointer(), Some(Point { x: 900, y: 100 }));
    controller.handle(at(905, 100), NOW);
    assert_eq!(controller.pointer(), Some(Point { x: 900, y: 100 }));
    assert_eq!(controller.selection(), Some(50));
    controller.handle(at(917, 100), NOW);
    assert_eq!(controller.pointer(), Some(Point { x: 917, y: 100 }));
    assert_eq!(controller.selection(), Some(51));
    controller.handle(at(917, 106), NOW);
    assert_eq!(controller.pointer(), Some(Point { x: 917, y: 106 }));
}

#[test]
fn pointer_that_leaves_clears_the_selection() {
    let mut controller = ready(hundred());
    controller.handle(at(900, 100), NOW);
    controller.handle(Event::PointerLeft, NOW);
    assert_eq!(controller.selection(), None);
    assert_eq!(controller.pointer(), None);
    controller.handle(at(901, 100), NOW);
    assert_eq!(controller.selection(), Some(50));
    controller.handle(at(-1, -1), NOW);
    assert_eq!(controller.selection(), None);
    assert_eq!(controller.pointer(), None);
    controller.handle(at(900, 100), NOW);
    controller.handle(at(900, -1), NOW);
    assert_eq!((controller.selection(), controller.pointer()), (None, None));
    controller.handle(at(900, 100), NOW);
    controller.handle(at(-3, 100), NOW);
    assert_eq!((controller.selection(), controller.pointer()), (None, None));
}

#[test]
fn pointer_is_passed_over_unless_ready() {
    let mut controller = Controller::new(Config::default(), String::from("x"), 1800);
    controller.handle(at(900, 100), NOW);
    assert_eq!(controller.pointer(), None);
    controller.handle(Event::SubmitLoad, NOW);
    controller.handle(at(900, 100), NOW);
    assert_eq!(controller.pointer(), None);
    controller.handle(
        Event::LoadFailed { generation: 1, reason: LoadError::ResourceNotFound },
        NOW,
    );
    controller.handle(at(900, 100), NOW);
    assert_eq!(controller.pointer(), None);
    let mut loaded = ready(hundred());
    loaded.handle(at(900, 100), NOW);
    loaded.handle(Event::SubmitLoad, NOW);
    loaded.handle(at(60, 100), NOW);
    assert_eq!(loaded.selection(), Some(50));
    assert_eq!(loaded.pointer(), Some(Point { x: 900, y: 100 }));
}

#[test]
fn pointer_that_leaves_is_cleared_in_every_phase() {
    let mut loaded = ready(hundred());
    loaded.handle(at(900, 100), NOW);
    loaded.handle(Event::SubmitLoad, NOW);
    assert_eq!(loaded.selection(), Some(50));
    loaded.handle(Event::PointerLeft, NOW);
    assert_eq!((loaded.selection(), loaded.pointer()), (None, None));
    assert_eq!(loaded.window().len(), 100);
    let mut again = ready(hundred());
    again.handle(at(900, 100), NOW);
    again.handle(Event::SubmitLoad, NOW);
    again.handle(at(-1, -1), NOW);
    assert_eq!((again.selection(), again.pointer()), (None, None));
    again.handle(
        Event::LoadFailed { generation: 2, reason: LoadError::ResourceNotFound },
        NOW,
    );
    again.handle(Event::PointerLeft, NOW);
    assert_eq!(again.phase(), Phase::Failed);
    assert_eq!((again.selection(), again.pointer()), (None, None));
}

#[test]
fn pointer_over_an_empty_window_selects_nothing() {
    let mut controller = ready(vec![]);
    controller.handle(at(900, 100), NOW);
    assert_eq!(controller.selection(), None);
    assert_eq!(controller.pointer(), Some(Point { x: 900, y: 100 }));
}

#[test]
fn load_keeps_the_pointer_and_clears_the_selection() {
    let mut controller = ready(hundred());
    controller.handle(at(900, 100), NOW);
    controller.handle(Event::SubmitLoad, NOW);
    let series = Series::from_rows(hundred());
    controller.handle(Event::LoadSucceeded { generation: 2, series }, NOW);
    assert_eq!(controller.selection(), None);
    assert_eq!(controller.pointer(), Some(Point { x: 900, y: 100 }));
}

#[test]
fn plot_region_follows_the_surface() {
    let mut controller = ready(hundred());
    controller.resize(1000);
    assert_eq!(controller.surface_width(), 1000);
    controller.handle(at(940, 0), NOW);
    assert_eq!(controller.selection(), Some(99));
    controller.handle(at(950, 0), NOW);
    assert_eq!(controller.selection(), None);
    controller.handle(at(500, 0), NOW);
    assert_eq!(controller.selection(), Some(50));
    controller.resize(100);
    controller.handle(at(60, 0), NOW);
    assert_eq!(controller.selection(), None);
}

#[test]
fn tick_changes_nothing() {
    let mut controller = ready(hundred());
    controller.handle(at(900, 100), NOW);
    assert_eq!(controller.handle(Event::Tick, NOW + 1), Effect::Nothing);
    assert_eq!(controller.selection(), Some(50));
    assert_eq!(controller.phase(), Phase::Ready);
    assert_eq!(controller.window().len(), 100);
}

#[test]
fn close_and_full_screen_are_handed_on() {
    let mut controller = Controller::new(Config::default(), String::new(), 1800);
    assert_eq!(controller.handle(Event::CloseRequested, NOW), Effect::Exit);
    assert_eq!(controller.handle(Event::FullscreenToggled, NOW), Effect::SetFullscreen(true));
    assert!(controller.is_fullscreen());
    assert_eq!(controller.handle(Event::FullscreenToggled, NOW), Effect::SetFullscreen(false));
    assert!(!controller.is_fullscreen());
}

#[test]
fn crosshair_is_on_the_price_panel_alone() {
    let mut controller = ready(hundred());
    controller.handle(at(900, 100), NOW);
    let price = controller.price_frame();
    let volume = controller.volume_frame();
    assert_eq!(price.shapes.len(), 103);
    assert_eq!(volume.shapes.len(), 100);
    assert!(matches!(price.shapes[100], Shape::Segment { x0: 50, x1: 50, .. }));
    assert!(matches!(price.shapes[101], Shape::Segment { x0: 0, x1: 100, y0: 1050, y1: 1050, .. }));
    assert!(matches!(price.shapes[102], Shape::Marker { x: 50, y: 1050, .. }));
    assert!(volume.shapes.iter().all(|shape| matches!(shape, Shape::Bar { .. })));
    assert_eq!(price, stock_chart::render::render(controller.window(), ChartKind::Price, Some(50)));
}

#[test]
fn update_takes_the_window_as_of_now() {
    let now = chrono::Utc::now().timestamp();
    let rows = vec![record(now - 400 * DAY, 1), record(now - 100 * DAY, 2), record(now - DAY, 3)];
    let mut controller = Controller::new(Config::default(), String::from("aapl"), 1800);
    let effect = controller.update(Event::SubmitLoad);
    assert_eq!(effect, Effect::StartLoad { ticker: String::from("AAPL"), generation: 1 });
    controller.update(Event::LoadSucceeded { generation: 1, series: Series::from_rows(rows) });
    assert_eq!(controller.phase(), Phase::Ready);
    assert_eq!(controller.series().len(), 3);
    assert_eq!(controller.window().len(), 2);
    controller.update(at(1740, 5));
    assert_eq!(controller.selection(), Some(1));
}

#[test]
fn control_q_and_control_w_close() {
    let control = Modifiers { control: true, shift: false, alt: false, logo: false };
    assert!(matches!(shortcut(Key::Character('q'), control), Some(Event::CloseRequested)));
    assert!(matches!(shortcut(Key::Character('w'), control), Some(Event::CloseRequested)));
    assert!(shortcut(Key::Character('e'), control).is_none());
    assert!(shortcut(Key::Character('Q'), control).is_none());
    assert!(shortcut(Key::F11, control).is_none());
    assert!(shortcut(Key::Other, control).is_none());
    let more = Modifiers { control: true, shift: true, alt: true, logo: false };
    assert!(matches!(shortcut(Key::Character('q'), more), Some(Event::CloseRequested)));
}

#[test]
fn f11_alone_toggles_full_screen() {
    let none = Modifiers { control: false, shift: false, alt: false, logo: false };
    assert!(matches!(shortcut(Key::F11, none), Some(Event::FullscreenToggled)));
    assert!(shortcut(Key::Character('q'), none).is_none());
    assert!(shortcut(Key::Other, none).is_none());
    let shift = Modifiers { control: false, shift: true, alt: false, logo: false };
    assert!(shortcut(Key::F11, shift).is_none());
    let alt = Modifiers { control: false, shift: false, alt: true, logo: false };
    assert!(shortcut(Key::F11, alt).is_none());
    let logo = Modifiers { control: false, shift: false, alt: false, logo: true };
    assert!(shortcut(Key::F11, logo).is_none());
}
