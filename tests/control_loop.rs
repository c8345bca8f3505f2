use telminal::control::{decide, next_frame, quit_key, Event, Step, Terminal};
use telminal::event::{KeyCode, KeyEvent, KeyModifiers};
use telminal::screen::{Character, ScreenBuffer};
use telminal::style::{Color, Style};
use telminal::tree::{Bounds, RenderError, ViewNode};

#[derive(Debug, PartialEq)]
enum Msg {
    KeyPressed(KeyEvent),
    Tick,
}

type View = ViewNode<fn(KeyEvent) -> Msg>;

fn update(msg: Msg, model: &u32) -> u32 {
    match msg {
        Msg::KeyPressed(KeyEvent { code: KeyCode::Up, .. }) => model + 1,
        Msg::KeyPressed(KeyEvent { code: KeyCode::Down, .. }) => model - 1,
        Msg::Tick => model + 1,
        Msg::KeyPressed(_) => *model,
    }
}

fn view(model: &u32) -> View {
    ViewNode::Container {
        child: ViewNode::Text(format!("{}", model)).boxed(),
        style: Style { color: None, background_color: Some(Color::Red) },
        on_key_press: Some(Msg::KeyPressed),
    }
}

fn key(code: KeyCode) -> KeyEvent {
    KeyEvent::new(code, KeyModifiers::none())
}

fn run_step(view: &View, event: Event<Msg>, model: u32) -> Option<u32> {
    match decide(view, event) {
        Step::Quit => None,
        Step::Update(msg) => Some(update(msg, &model)),
        Step::HandleKey(handler, k) => Some(update(handler(k), &model)),
        Step::Continue => Some(model),
    }
}

#[test]
fn increment_key_redraws_exactly_one_cell() {
    let terminal = Terminal::new(0u32, update, view, (), (8, 2));
    let bounds = terminal.screen_bounds();
    let blank = terminal.blank_screen();
    let model = terminal.init;

    let first_view = (terminal.view)(&model);
    let first = next_frame(&first_view, &blank, &bounds).unwrap();
    assert_eq!(first.changes.len(), 16);
    assert_eq!(first.buffer.get(0, 0).character, "0");
    assert_eq!(first.buffer.get(0, 0).background_color, Color::Red);

    let model = run_step(&first_view, Event::Key(key(KeyCode::Up)), model).unwrap();
    assert_eq!(model, 1);

    let second_view = (terminal.view)(&model);
    let second = next_frame(&second_view, &first.buffer, &bounds).unwrap();
    assert_eq!(second.changes.len(), 1);
    let change = &second.changes[0];
    assert_eq!((change.x, change.y), (0, 0));
    assert_eq!(change.cell.character, "1");
    assert_eq!(change.cell.background_color, Color::Red);
    assert_eq!(change.cell.foreground_color, Color::Reset);
}

#[test]
fn unchanged_view_redraws_nothing() {
    let buf = ScreenBuffer::new(12, 3, Character::default());
    let bounds = Bounds { origin: (0, 0), size: (12, 3) };
    let v: View = ViewNode::Row(vec![
        view(&7),
        ViewNode::Text(String::from("ab")),
        ViewNode::Container {
            child: ViewNode::Text(String::from("z")).boxed(),
            style: Style { color: Some(Color::Blue), background_color: None },
            on_key_press: None,
        },
    ]);
    let first = next_frame(&v, &buf, &bounds).unwrap();
    assert!(!first.changes.is_empty());
    let second = next_frame(&v, &first.buffer, &bounds).unwrap();
    assert!(second.changes.is_empty());
}

#[test]
fn frame_that_does_not_fit_is_an_error() {
    let buf = ScreenBuffer::new(2, 1, Character::default());
    let v: View = ViewNode::Text(String::from("abc"));
    let r = next_frame(&v, &buf, &Bounds { origin: (0, 0), size: (2, 1) });
    assert_eq!(r.err().map(|e| e == RenderError::LayoutBounds), Some(true));
}

#[test]
fn quit_key_ends_loop_from_any_state() {
    for model in [0u32, 1, 41, u32::MAX] {
        let v = view(&model);
        assert!(run_step(&v, Event::Key(key(KeyCode::Char('q'))), model).is_none());
        let mut mods = KeyModifiers::none();
        mods.control = true;
        let ctrl_q = KeyEvent::new(KeyCode::Char('q'), mods);
        assert!(run_step(&v, Event::Key(ctrl_q), model).is_none());
    }
    let plain: View = ViewNode::Text(String::from("x"));
    assert!(matches!(decide::<Msg, _>(&plain, Event::Key(key(KeyCode::Char('q')))), Step::Quit));
    assert!(quit_key(&key(KeyCode::Char('q'))));
    assert!(!quit_key(&key(KeyCode::Char('Q'))));
    assert!(!quit_key(&key(KeyCode::Esc)));
}

#[test]
fn keys_go_to_the_root_handler_only() {
    let v = view(&3);
    assert_eq!(run_step(&v, Event::Key(key(KeyCode::Down)), 3), Some(2));
    assert_eq!(run_step(&v, Event::Key(key(KeyCode::Left)), 3), Some(3));
    match decide::<Msg, _>(&v, Event::Key(key(KeyCode::Up))) {
        Step::HandleKey(_, k) => assert_eq!(k, key(KeyCode::Up)),
        _ => panic!("expected the root handler"),
    }
    let nested: View = ViewNode::Row(vec![view(&3)]);
    assert!(matches!(decide::<Msg, _>(&nested, Event::Key(key(KeyCode::Up))), Step::Continue));
    let no_handler: View = ViewNode::Container {
        child: ViewNode::Empty.boxed(),
        style: Style::default(),
        on_key_press: None,
    };
    assert!(matches!(decide::<Msg, _>(&no_handler, Event::Key(key(KeyCode::Up))), Step::Continue));
}

#[test]
fn subscription_messages_update_directly() {
    let v: View = ViewNode::Empty;
    assert_eq!(run_step(&v, Event::Message(Msg::Tick), 9), Some(10));
    assert!(matches!(decide(&v, Event::Message(Msg::Tick)), Step::Update(Msg::Tick)));
    assert!(matches!(decide::<Msg, _>(&v, Event::Other), Step::Continue));
}

#[test]
fn blank_screen_matches_terminal_size() {
    let terminal = Terminal::new((), (), (), (), (5, 4));
    let screen = terminal.blank_screen();
    assert_eq!((screen.width(), screen.height()), (5, 4));
    assert!(screen.iter().all(|c| *c == Character::default()));
    let b = terminal.screen_bounds();
    assert_eq!((b.origin, b.size), ((0, 0), (5, 4)));
}
