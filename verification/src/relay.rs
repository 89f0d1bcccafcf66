use vstd::prelude::*;

verus! {

/// A pointer button the relay reports on.
#[derive(Clone, Copy, Debug, PartialEq, Eq, Structural)]
pub enum PointerButton {
    Left,
    Right,
}

/// A button as the operating system's raw stream names it. Only the left
/// and right buttons are relayed; everything else is discarded.
#[derive(Clone, Copy, Debug, PartialEq, Eq, Structural)]
pub enum RawButton {
    Left,
    Right,
    Middle,
    Other,
}

/// One event of the system-wide raw input stream, with coordinates of an
/// arbitrary copyable type `C` (the embedding application instantiates `C`
/// with its native coordinate type).
#[derive(Clone, Copy, Debug, PartialEq, Eq)]
pub enum RawPointerEvent<C> {
    /// The pointer moved to the absolute position `(x, y)`.
    Moved { x: C, y: C },
    /// A button went down.
    Pressed { button: RawButton },
    /// A button came up.
    Released { button: RawButton },
    /// A keyboard, wheel or other non-pointer event.
    NonPointer,
}

/// The classification of a relayed event.
#[derive(Clone, Copy, Debug, PartialEq, Eq, Structural)]
pub enum InputEventKind {
    Move,
    Drag,
    Down,
    Up,
}

/// One event of the relay's outbound stream: the last known absolute
/// position, the classification, and the button concerned, if any.
#[derive(Clone, Copy, Debug, PartialEq, Eq)]
pub struct InputEvent<C> {
    pub x: C,
    pub y: C,
    pub kind: InputEventKind,
    pub button: Option<PointerButton>,
}

/// The relay's whole state: the last pointer position and which of the two
/// relayed buttons are currently held.
#[derive(Clone, Copy, Debug, PartialEq, Eq)]
pub struct RelayState<C> {
    pub x: C,
    pub y: C,
    pub left_down: bool,
    pub right_down: bool,
}

/// The state after one raw event: a move updates the position, a press or
/// release of a relayed button updates its flag, everything else changes
/// nothing.
pub open spec fn step_state<C>(s: RelayState<C>, e: RawPointerEvent<C>) -> RelayState<C> {
    match e {
        RawPointerEvent::Moved { x, y } => RelayState { x, y, ..s },
        RawPointerEvent::Pressed { button } => match button {
            RawButton::Left => RelayState { left_down: true, ..s },
            RawButton::Right => RelayState { right_down: true, ..s },
            _ => s,
        },
        RawPointerEvent::Released { button } => match button {
            RawButton::Left => RelayState { left_down: false, ..s },
            RawButton::Right => RelayState { right_down: false, ..s },
            _ => s,
        },
        RawPointerEvent::NonPointer => s,
    }
}

/// What one raw event makes the relay emit, from state `s`: a move becomes
/// a `Move`, or a `Drag` tagged with the held button while one is held
/// (left takes precedence if, abnormally, both are); a press or release of
/// a relayed button becomes a `Down` or `Up` at the last known position;
/// everything else is discarded.
pub open spec fn step_output<C>(s: RelayState<C>, e: RawPointerEvent<C>) -> Option<InputEvent<C>> {
    match e {
        RawPointerEvent::Moved { x, y } => Option::Some(
            InputEvent {
                x,
                y,
                kind: if s.left_down || s.right_down {
                    InputEventKind::Drag
                } else {
                    InputEventKind::Move
                },
                button: if s.left_down {
                    Option::Some(PointerButton::Left)
                } else if s.right_down {
                    Option::Some(PointerButton::Right)
                } else {
                    Option::None
                },
            },
        ),
        RawPointerEvent::Pressed { button } => match button {
            RawButton::Left => Option::Some(
                InputEvent {
                    x: s.x,
                    y: s.y,
                    kind: InputEventKind::Down,
                    button: Option::Some(PointerButton::Left),
                },
            ),
            RawButton::Right => Option::Some(
                InputEvent {
                    x: s.x,
                    y: s.y,
                    kind: InputEventKind::Down,
                    button: Option::Some(PointerButton::Right),
                },
            ),
            _ => Option::None,
        },
        RawPointerEvent::Released { button } => match button {
            RawButton::Left => Option::Some(
                InputEvent {
                    x: s.x,
                    y: s.y,
                    kind: InputEventKind::Up,
                    button: Option::Some(PointerButton::Left),
                },
            ),
            RawButton::Right => Option::Some(
                InputEvent {
                    x: s.x,
                    y: s.y,
                    kind: InputEventKind::Up,
                    button: Option::Some(PointerButton::Right),
                },
            ),
            _ => Option::None,
        },
        RawPointerEvent::NonPointer => Option::None,
    }
}

/// The state after a whole history of raw events.
pub open spec fn state_after<C>(init: RelayState<C>, events: Seq<RawPointerEvent<C>>) -> RelayState<
    C,
>
    decreases events.len(),
{
    if events.len() == 0 {
        init
    } else {
        step_state(state_after(init, events.drop_last()), events.last())
    }
}

/// A sequence holding an optional event, in emission order.
pub open spec fn emitted<C>(o: Option<InputEvent<C>>) -> Seq<InputEvent<C>> {
    match o {
        Option::Some(ev) => seq![ev],
        Option::None => Seq::empty(),
    }
}

/// Everything the relay emits over a whole history of raw events.
pub open spec fn outputs_after<C>(
    init: RelayState<C>,
    events: Seq<RawPointerEvent<C>>,
) -> Seq<InputEvent<C>>
    decreases events.len(),
{
    if events.len() == 0 {
        Seq::empty()
    } else {
        outputs_after(init, events.drop_last()) + emitted(
            step_output(state_after(init, events.drop_last()), events.last()),
        )
    }
}

impl<C: Copy> RelayState<C> {
    /// A relay that has seen nothing: no button held, the pointer assumed
    /// at the given starting position.
    pub fn new(x0: C, y0: C) -> (s: RelayState<C>)
        ensures
            s.x == x0,
            s.y == y0,
            !s.left_down,
            !s.right_down,
    {
        RelayState { x: x0, y: y0, left_down: false, right_down: false }
    }

    /// Feeds one raw event through the relay, returning what it emits.
    pub fn step(&mut self, e: RawPointerEvent<C>) -> (out: Option<InputEvent<C>>)
        ensures
            *final(self) == step_state(*old(self), e),
            out == step_output(*old(self), e),
    {
        match e {
            RawPointerEvent::Moved { x, y } => {
                self.x = x;
                self.y = y;
                let kind = if self.left_down || self.right_down {
                    InputEventKind::Drag
                } else {
                    InputEventKind::Move
                };
                let button = if self.left_down {
                    Option::Some(PointerButton::Left)
                } else if self.right_down {
                    Option::Some(PointerButton::Right)
                } else {
                    Option::None
                };
                Option::Some(InputEvent { x, y, kind, button })
            },
            RawPointerEvent::Pressed { button } => match button {
                RawButton::Left => {
                    self.left_down = true;
                    Option::Some(
                        InputEvent {
                            x: self.x,
                            y: self.y,
                            kind: InputEventKind::Down,
                            button: Option::Some(PointerButton::Left),
                        },
                    )
                },
                RawButton::Right => {
                    self.right_down = true;
                    Option::Some(
                        InputEvent {
                            x: self.x,
                            y: self.y,
                            kind: InputEventKind::Down,
                            button: Option::Some(PointerButton::Right),
                        },
                    )
                },
                _ => Option::None,
            },
            RawPointerEvent::Released { button } => match button {
                RawButton::Left => {
                    self.left_down = false;
                    Option::Some(
                        InputEvent {
                            x: self.x,
                            y: self.y,
                            kind: InputEventKind::Up,
                            button: Option::Some(PointerButton::Left),
                        },
                    )
                },
                RawButton::Right => {
                    self.right_down = false;
                    Option::Some(
                        InputEvent {
                            x: self.x,
                            y: self.y,
                            kind: InputEventKind::Up,
                            button: Option::Some(PointerButton::Right),
                        },
                    )
                },
                _ => Option::None,
            },
            RawPointerEvent::NonPointer => Option::None,
        }
    }

    /// Feeds a whole sequence of raw events through the relay, collecting
    /// everything it emits, in order.
    pub fn process_events(&mut self, events: &Vec<RawPointerEvent<C>>) -> (out: Vec<InputEvent<C>>)
        ensures
            *final(self) == state_after(*old(self), events@),
            out@ == outputs_after(*old(self), events@),
    {
        let ghost init = *self;
        let mut out: Vec<InputEvent<C>> = Vec::new();
        let mut i: usize = 0;
        while i < events.len()
            invariant
                0 <= i <= events@.len(),
                *self == state_after(init, events@.subrange(0, i as int)),
                out@ == outputs_after(init, events@.subrange(0, i as int)),
            decreases events@.len() - i,
        {
            proof {
                assert(events@.subrange(0, i + 1).drop_last() =~= events@.subrange(0, i as int));
                assert(events@.subrange(0, i + 1).last() == events@[i as int]);
            }
            match self.step(events[i]) {
                Option::Some(ev) => out.push(ev),
                Option::None => {},
            }
            i = i + 1;
        }
        proof {
            assert(events@.subrange(0, events@.len() as int) =~= events@);
        }
        out
    }
}

/// The name under which a classification travels in the outbound payload.
pub fn kind_name(k: InputEventKind) -> (r: &'static str)
    ensures
        k is Move ==> r@ == "move"@,
        k is Drag ==> r@ == "drag"@,
        k is Down ==> r@ == "down"@,
        k is Up ==> r@ == "up"@,
{
    match k {
        InputEventKind::Move => "move",
        InputEventKind::Drag => "drag",
        InputEventKind::Down => "down",
        InputEventKind::Up => "up",
    }
}

/// The name under which a button tag travels in the outbound payload.
pub fn button_name(b: Option<PointerButton>) -> (r: &'static str)
    ensures
        b == Option::Some(PointerButton::Left) ==> r@ == "left"@,
        b == Option::Some(PointerButton::Right) ==> r@ == "right"@,
        b matches Option::None ==> r@ == "none"@,
{
    match b {
        Option::Some(PointerButton::Left) => "left",
        Option::Some(PointerButton::Right) => "right",
        Option::None => "none",
    }
}

/// The raw press event of a relayed button.
pub open spec fn press_of<C>(b: PointerButton) -> RawPointerEvent<C> {
    match b {
        PointerButton::Left => RawPointerEvent::Pressed { button: RawButton::Left },
        PointerButton::Right => RawPointerEvent::Pressed { button: RawButton::Right },
    }
}

/// The raw release event of a relayed button.
pub open spec fn release_of<C>(b: PointerButton) -> RawPointerEvent<C> {
    match b {
        PointerButton::Left => RawPointerEvent::Released { button: RawButton::Left },
        PointerButton::Right => RawPointerEvent::Released { button: RawButton::Right },
    }
}

/// Whether the history holds a press of `b` with no release of `b` after it.
pub open spec fn unreleased_down<C>(events: Seq<RawPointerEvent<C>>, b: PointerButton) -> bool {
    exists|j: int|
        0 <= j < events.len() && events[j] == press_of::<C>(b) && (forall|k: int|
            j < k < events.len() ==> events[k] != release_of::<C>(b))
}

/// Whether the relay currently holds button `b` as down.
pub open spec fn button_held<C>(s: RelayState<C>, b: PointerButton) -> bool {
    match b {
        PointerButton::Left => s.left_down,
        PointerButton::Right => s.right_down,
    }
}

/// A relay that started with no button held records `b` as held exactly
/// when the history holds an unreleased press of `b`.
pub proof fn lemma_held_iff_unreleased_down<C>(
    init: RelayState<C>,
    events: Seq<RawPointerEvent<C>>,
    b: PointerButton,
)
    requires
        !button_held(init, b),
    ensures
        button_held(state_after(init, events), b) == unreleased_down(events, b),
    decreases events.len(),
{
    if events.len() == 0 {
        assert(!unreleased_down(events, b));
    } else {
        let prefix = events.drop_last();
        let e = events.last();
        lemma_held_iff_unreleased_down(init, prefix, b);
        let held_before = button_held(state_after(init, prefix), b);
        if e == press_of::<C>(b) {
            assert(button_held(state_after(init, events), b));
            assert(events[events.len() - 1] == press_of::<C>(b));
            assert(unreleased_down(events, b));
        } else if e == release_of::<C>(b) {
            assert(!button_held(state_after(init, events), b));
            assert(!unreleased_down(events, b)) by {
                assert forall|j: int|
                    0 <= j < events.len() && events[j] == press_of::<C>(b) implies !(forall|k: int|
                    j < k < events.len() ==> events[k] != release_of::<C>(b)) by {
                    assert(j < events.len() - 1 < events.len());
                    assert(events[events.len() - 1] == release_of::<C>(b));
                }
            }
        } else {
            assert(button_held(state_after(init, events), b) == held_before);
            if unreleased_down(prefix, b) {
                let j = choose|j: int|
                    0 <= j < prefix.len() && prefix[j] == press_of::<C>(b) && (forall|k: int|
                        j < k < prefix.len() ==> prefix[k] != release_of::<C>(b));
                assert(events[j] == press_of::<C>(b));
                assert forall|k: int| j < k < events.len() implies events[k] != release_of::<C>(
                    b,
                ) by {
                    if k < events.len() - 1 {
                        assert(events[k] == prefix[k]);
                    } else {
                        assert(events[k] == e);
                    }
                }
                assert(unreleased_down(events, b));
            }
            if unreleased_down(events, b) {
                let j = choose|j: int|
                    0 <= j < events.len() && events[j] == press_of::<C>(b) && (forall|k: int|
                        j < k < events.len() ==> events[k] != release_of::<C>(b));
                assert(j < events.len() - 1);
                assert(prefix[j] == press_of::<C>(b));
                assert(forall|k: int| j < k < prefix.len() ==> prefix[k] != release_of::<C>(b));
                assert(unreleased_down(prefix, b));
            }
        }
    }
}

/// A `Drag` tagged with button `b` is never emitted without a preceding
/// unreleased press of `b` in the raw history since the relay started.
pub proof fn lemma_drag_requires_unreleased_down<C>(
    init: RelayState<C>,
    events: Seq<RawPointerEvent<C>>,
    e: RawPointerEvent<C>,
    ev: InputEvent<C>,
    b: PointerButton,
)
    requires
        !init.left_down,
        !init.right_down,
        step_output(state_after(init, events), e) == Option::Some(ev),
        ev.kind is Drag,
        ev.button == Option::Some(b),
    ensures
        unreleased_down(events, b),
{
    let s = state_after(init, events);
    assert(e is Moved);
    assert(s.left_down || s.right_down);
    match b {
        PointerButton::Left => {
            assert(s.left_down);
            lemma_held_iff_unreleased_down(init, events, PointerButton::Left);
        },
        PointerButton::Right => {
            assert(s.right_down);
            lemma_held_iff_unreleased_down(init, events, PointerButton::Right);
        },
    }
}

} // verus!
