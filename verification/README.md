# iced_mobile

The decisions of a runner for [iced](https://iced.rs) applications on iOS and Android, as a library
that is verified with [Verus](https://github.com/verus-lang/verus), and the runner around it.

From the point of view of an application it takes one line more than usual: import
`MobileAppRunner` and call `mobile_run` in place of `run`.

## Layout

- `src/` is the verified library. It holds no window, no renderer and no program, and it does
  nothing by itself: it says what is to be done.
  - `runner` sits between the event loop and the application. It decides what the application is
    told, and puts off what cannot be done yet.
  - `instance` is the application: its windows, events, messages, user interfaces and frames.
    `instance::model` is what it does as a function of its state, `instance::order` is what holds of
    it at all times, and `instance::laws` is what it can be relied on for from one step to the next.
    `instance::whole` says what comes of an event or an action as a whole, `instance::delivery` how
    events are told, and `instance::frames` how a frame is drawn. `instance::life`,
    `instance::messages` and `instance::tally` say what holds over the life of an application.
  - `window_man`, `update` and `rebuild` are the windows, the update of the program and the
    construction of the user interfaces.
  - `flow`, `input`, `control` and `conversion` are single decisions.
  - `counter` and `widgets::modal` are the example application.
  - `fx` and `conversion` hold the calls into other crates. What they are trusted to do is written
    down there.
- `app/` does what the library says, with `winit` and `iced`.
- `tests/` run the library.

## How it runs

Both `runner::Runner` and `instance::Instance` work the same way. They are told what happened, and
are then asked for one command at a time. Each command is carried out, and what came of it is handed
back with the question for the next one. The user interfaces belong to the caller, since they may
borrow the program; the caller hands the map of them in and leaves it alone otherwise.

A caller that answers every command in kind never gets stuck: every command is about a window that
is open and, where it needs one, about a user interface that is there, and every answer is one that
the next step can go on from. `instance::upkeep::steps_go_well` and `runner::model::steps_go_well`
prove it.
