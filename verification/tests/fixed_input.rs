use bevy::input::Input;
use bevy::prelude::MouseButton;
use ship_designer::fixed_input::ClearFlag;

/// Input as fixed steps see it, the flag that says when to clear it, and the
/// presses and releases that arrive before the next frame gathers them.
struct Fixed {
    input: Input<MouseButton>,
    flag: ClearFlag,
    pressed: Vec<MouseButton>,
    released: Vec<MouseButton>,
}

impl Fixed {
    fn new() -> Self {
        Fixed { input: Input::default(), flag: ClearFlag::new(), pressed: Vec::new(), released: Vec::new() }
    }

    fn mock_mouse_button_press(&mut self, b: MouseButton) {
        self.pressed.push(b);
    }

    fn mock_mouse_button_release(&mut self, b: MouseButton) {
        self.released.push(b);
    }

    /// The start of a frame: clear what the fixed steps of the frame before saw,
    /// then gather the frame's presses and releases.
    fn frame_start(&mut self) {
        if self.flag.on_frame_start() {
            self.input.clear();
        }
        for b in self.pressed.drain(..) {
            self.input.press(b);
        }
        for b in self.released.drain(..) {
            self.input.release(b);
        }
    }

    fn fixed_step(&mut self) {
        if self.flag.on_fixed_step() {
            self.input.clear();
        }
    }

    /// One frame with one fixed step.
    fn fixed_update(&mut self) {
        self.frame_start();
        self.fixed_step();
    }
}

#[test]
fn fixed_input_just_pressed_set() {
    let mut app = Fixed::new();

    app.mock_mouse_button_press(MouseButton::Left);

    app.fixed_update();

    assert!(app.input.just_pressed(MouseButton::Left));
}

#[test]
fn fixed_input_just_pressed_cleared() {
    let mut app = Fixed::new();

    app.mock_mouse_button_press(MouseButton::Left);

    app.fixed_update();
    app.fixed_update();

    assert!(!app.input.just_pressed(MouseButton::Left));
}

#[test]
fn fixed_input_pressed_cleared() {
    let mut app = Fixed::new();

    app.mock_mouse_button_press(MouseButton::Left);

    app.fixed_update();

    app.mock_mouse_button_release(MouseButton::Left);

    app.fixed_update();

    assert!(!app.input.pressed(MouseButton::Left));
}

#[test]
fn flag_clears_from_the_second_fixed_step_on() {
    let mut flag = ClearFlag::new();
    assert!(!flag.on_fixed_step());
    assert!(flag.on_fixed_step());
    assert!(flag.on_frame_start());
    assert!(!flag.on_frame_start());
    assert!(!flag.on_fixed_step());
}

#[test]
fn press_is_not_seen_by_a_second_fixed_step_of_the_frame() {
    let mut f = Fixed::new();
    f.mock_mouse_button_press(MouseButton::Left);
    f.frame_start();
    f.fixed_step();
    assert!(f.input.just_pressed(MouseButton::Left));
    f.fixed_step();
    assert!(!f.input.just_pressed(MouseButton::Left));
}

#[test]
fn press_waits_for_a_frame_with_a_fixed_step() {
    let mut f = Fixed::new();
    f.mock_mouse_button_press(MouseButton::Left);
    f.frame_start();
    f.frame_start();
    assert!(f.input.just_pressed(MouseButton::Left));
    f.fixed_step();
    assert!(f.input.just_pressed(MouseButton::Left));
    f.frame_start();
    assert!(!f.input.just_pressed(MouseButton::Left));
    assert!(f.input.pressed(MouseButton::Left));
}

#[test]
fn release_is_seen_after_the_next_frame_starts() {
    let mut f = Fixed::new();
    f.mock_mouse_button_press(MouseButton::Left);
    f.fixed_update();
    f.mock_mouse_button_release(MouseButton::Left);
    f.fixed_update();
    assert!(!f.input.pressed(MouseButton::Left));
    assert!(f.input.just_released(MouseButton::Left));
}
