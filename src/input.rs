use vstd::prelude::*;

verus! {

/// Actions a player can trigger.
#[derive(Clone, Copy, Debug, PartialEq, Eq, Hash, Structural)]
pub enum PlayerAction {
    Move,
    Attack,
    Throw,
    Shoot,
}

/// Actions of the menus.
#[derive(Clone, Copy, Debug, PartialEq, Eq, Hash, Structural)]
pub enum MenuAction {
    Up,
    Down,
    Left,
    Right,
    Confirm,
    Back,
    Pause,
    ToggleFullscreen,
}

/// Keyboard keys the menus are bound to.
#[derive(Clone, Copy, Debug, PartialEq, Eq, Hash, Structural)]
pub enum Key {
    Up,
    Down,
    Left,
    Right,
    Return,
    Escape,
    F11,
}

/// Gamepad buttons the menus are bound to.
#[derive(Clone, Copy, Debug, PartialEq, Eq, Hash, Structural)]
pub enum PadButton {
    DPadUp,
    DPadDown,
    DPadLeft,
    DPadRight,
    South,
    East,
    Start,
    Mode,
}

#[derive(Clone, Copy, Debug, PartialEq, Eq, Hash, Structural)]
pub enum StickAxis {
    LeftStickX,
    LeftStickY,
}

/// An input the menus react to. A stick triggers when its value leaves the
/// band between `negative_low` and `positive_low`, given in hundredths of
/// full deflection.
#[derive(Clone, Copy, Debug, PartialEq, Eq, Hash, Structural)]
pub enum MenuInput {
    Key(Key),
    Button(PadButton),
    Stick { axis: StickAxis, positive_low: i16, negative_low: i16 },
}

/// The menu bindings, in the order they are registered.
pub open spec fn menu_bindings() -> Seq<(MenuInput, MenuAction)> {
    seq![
        (MenuInput::Key(Key::Up), MenuAction::Up),
        (MenuInput::Button(PadButton::DPadUp), MenuAction::Up),
        (MenuInput::Stick { axis: StickAxis::LeftStickY, positive_low: 50i16, negative_low: -100i16 }, MenuAction::Up),
        (MenuInput::Key(Key::Left), MenuAction::Left),
        (MenuInput::Button(PadButton::DPadLeft), MenuAction::Left),
        (MenuInput::Stick { axis: StickAxis::LeftStickX, positive_low: 100i16, negative_low: -50i16 }, MenuAction::Left),
        (MenuInput::Key(Key::Down), MenuAction::Down),
        (MenuInput::Button(PadButton::DPadDown), MenuAction::Down),
        (MenuInput::Stick { axis: StickAxis::LeftStickY, positive_low: 100i16, negative_low: -50i16 }, MenuAction::Down),
        (MenuInput::Key(Key::Right), MenuAction::Right),
        (MenuInput::Button(PadButton::DPadRight), MenuAction::Right),
        (MenuInput::Stick { axis: StickAxis::LeftStickX, positive_low: 50i16, negative_low: -100i16 }, MenuAction::Right),
        (MenuInput::Key(Key::Return), MenuAction::Confirm),
        (MenuInput::Button(PadButton::South), MenuAction::Confirm),
        (MenuInput::Button(PadButton::Start), MenuAction::Confirm),
        (MenuInput::Key(Key::Escape), MenuAction::Back),
        (MenuInput::Button(PadButton::East), MenuAction::Back),
        (MenuInput::Key(Key::F11), MenuAction::ToggleFullscreen),
        (MenuInput::Button(PadButton::Mode), MenuAction::ToggleFullscreen),
        (MenuInput::Key(Key::Escape), MenuAction::Pause),
        (MenuInput::Button(PadButton::Start), MenuAction::Pause)
    ]
}

/// The bindings of the menu actions: arrows, d-pad and left stick to move,
/// Return, South or Start to confirm, Escape or East to go back, F11 or Mode
/// for fullscreen, Escape or Start to pause.
pub fn menu_input_map() -> (r: Vec<(MenuInput, MenuAction)>)
    ensures
        r@ == menu_bindings(),
{
    let mut r: Vec<(MenuInput, MenuAction)> = Vec::new();
    r.push((MenuInput::Key(Key::Up), MenuAction::Up));
    r.push((MenuInput::Button(PadButton::DPadUp), MenuAction::Up));
    r.push((MenuInput::Stick { axis: StickAxis::LeftStickY, positive_low: 50, negative_low: -100 }, MenuAction::Up));
    r.push((MenuInput::Key(Key::Left), MenuAction::Left));
    r.push((MenuInput::Button(PadButton::DPadLeft), MenuAction::Left));
    r.push((MenuInput::Stick { axis: StickAxis::LeftStickX, positive_low: 100, negative_low: -50 }, MenuAction::Left));
    r.push((MenuInput::Key(Key::Down), MenuAction::Down));
    r.push((MenuInput::Button(PadButton::DPadDown), MenuAction::Down));
    r.push((MenuInput::Stick { axis: StickAxis::LeftStickY, positive_low: 100, negative_low: -50 }, MenuAction::Down));
    r.push((MenuInput::Key(Key::Right), MenuAction::Right));
    r.push((MenuInput::Button(PadButton::DPadRight), MenuAction::Right));
    r.push((MenuInput::Stick { axis: StickAxis::LeftStickX, positive_low: 50, negative_low: -100 }, MenuAction::Right));
    r.push((MenuInput::Key(Key::Return), MenuAction::Confirm));
    r.push((MenuInput::Button(PadButton::South), MenuAction::Confirm));
    r.push((MenuInput::Button(PadButton::Start), MenuAction::Confirm));
    r.push((MenuInput::Key(Key::Escape), MenuAction::Back));
    r.push((MenuInput::Button(PadButton::East), MenuAction::Back));
    r.push((MenuInput::Key(Key::F11), MenuAction::ToggleFullscreen));
    r.push((MenuInput::Button(PadButton::Mode), MenuAction::ToggleFullscreen));
    r.push((MenuInput::Key(Key::Escape), MenuAction::Pause));
    r.push((MenuInput::Button(PadButton::Start), MenuAction::Pause));
    assert(r@ =~= menu_bindings());
    r
}

} // verus!
