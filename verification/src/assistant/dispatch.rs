//! One entry point for every user action and outside report.
use vstd::prelude::*;
use crate::analysis::{clamp_interval, EngineResult};
use crate::assistant::{printable, AView, Assistant, Effect, Panel};
use crate::game::{ModeOption, SidebarTab, WindowOption};
use crate::link::LinkWindowInfo;
use crate::types::Pos;

verus! {

/// A user action or a report from outside.
#[derive(Debug)]
pub enum Message {
    ModeSelected(ModeOption),
    NewGame,
    Undo,
    Redo,
    Hint,
    ToggleFlip,
    ToggleSidebar,
    SidebarTabSelected(SidebarTab),
    ToggleLearning(bool),
    CellPressed(Pos),
    AiTogglePause,
    AiStep,
    AiSpeedUp,
    AiSpeedDown,
    /// A clock tick, in milliseconds of a monotonic clock.
    Tick(u64),
    RequestWindowList,
    WindowListLoaded(Result<Vec<LinkWindowInfo>, String>),
    WindowSelected(WindowOption),
    ToggleLink,
    LinkTick,
    ToggleEngine(bool),
    ToggleCloud(bool),
    EngineFinished(EngineResult),
}

impl Assistant {
    /// Handles one user action or outside report and names the outside work
    /// to do next.
    #[verifier::spinoff_prover]
    #[verifier::rlimit(100)]
    pub fn update(&mut self, message: Message) -> (e: Effect)
        requires
            old(self)@.wf(),
            message matches Message::CellPressed(pos) ==> pos.spec_in_bounds(),
            message matches Message::EngineFinished(r) ==> (r.analysis.bestmove matches Some(m)
                ==> printable(m)),
        ensures
            final(self)@.wf(),
            match message {
                Message::ModeSelected(o) => (final(self)@, e) == old(self)@.switch_mode(o.spec_to_mode()),
                Message::NewGame => (final(self)@, e) == old(self)@.reset(),
                Message::Undo => final(self)@ == old(self)@.undo() && e == Effect::Idle,
                Message::Redo => final(self)@ == old(self)@.redo_step() && e == Effect::Idle,
                Message::Hint => (final(self)@, e) == old(self)@.hint(),
                Message::ToggleFlip => final(self)@ == old(self)@.toggle_flip() && e == Effect::Idle,
                Message::ToggleSidebar => final(self)@ == (AView {
                    panel: Panel { sidebar_collapsed: !old(self)@.panel.sidebar_collapsed, ..old(self)@.panel },
                    ..old(self)@
                }) && e == Effect::Idle,
                Message::SidebarTabSelected(tab) => final(self)@ == (AView {
                    panel: Panel { tab, ..old(self)@.panel },
                    ..old(self)@
                }) && e == Effect::Idle,
                Message::ToggleLearning(on) => final(self)@ == old(self)@.set_learning(on) && e == Effect::Idle,
                Message::CellPressed(pos) => (final(self)@, e) == old(self)@.press(pos),
                Message::AiTogglePause => final(self)@ == old(self)@.toggle_pause() && e == Effect::Idle,
                Message::AiStep => (final(self)@, e) == if old(self)@.mode is AiVsAi {
                    old(self)@.request_ai()
                } else {
                    (old(self)@, Effect::Idle)
                },
                Message::AiSpeedUp => e == Effect::Idle && final(self)@ == if old(self)@.mode is AiVsAi {
                    old(self)@.paced(clamp_interval(
                        if old(self)@.pace.interval_ms >= 80 { old(self)@.pace.interval_ms - 80 } else { 0 },
                    ) as u64)
                } else {
                    old(self)@
                },
                Message::AiSpeedDown => e == Effect::Idle && final(self)@ == if old(self)@.mode is AiVsAi {
                    old(self)@.paced(clamp_interval(
                        if old(self)@.pace.interval_ms + 120 <= u64::MAX {
                            old(self)@.pace.interval_ms + 120
                        } else {
                            old(self)@.pace.interval_ms + 120 - 0x1_0000_0000_0000_0000
                        },
                    ) as u64)
                } else {
                    old(self)@
                },
                Message::Tick(now) => (final(self)@, e) == old(self)@.tick(now),
                Message::RequestWindowList => final(self)@ == old(self)@ && e == Effect::ListWindows,
                Message::WindowListLoaded(r) => e == Effect::Idle && final(self)@ == old(self)@.windows_loaded(
                    match r {
                        Ok(list) => Ok(list@.map_values(|i: LinkWindowInfo| i@)),
                        Err(err) => Err(err@),
                    },
                ),
                Message::WindowSelected(w) => final(self)@ == (AView { selected: Some(w@), ..old(self)@ })
                    && e == Effect::Idle,
                Message::ToggleLink => (final(self)@, e) == old(self)@.toggle_link(),
                Message::LinkTick => final(self)@ == old(self)@ && e == Effect::CaptureLink,
                Message::ToggleEngine(on) => final(self)@ == old(self)@.set_engine(on) && e == Effect::Idle,
                Message::ToggleCloud(on) => final(self)@ == old(self)@.set_cloud(on) && e == Effect::Idle,
                Message::EngineFinished(r) => final(self)@ == old(self)@.finished(r.purpose, r.analysis@)
                    && e == Effect::Idle,
            },
    {
        match message {
            Message::ModeSelected(option) => self.switch_mode(option.to_mode()),
            Message::NewGame => self.reset_game(),
            Message::Undo => {
                self.undo();
                Effect::Idle
            },
            Message::Redo => {
                self.redo();
                Effect::Idle
            },
            Message::Hint => self.request_hint(),
            Message::ToggleFlip => {
                self.toggle_flip();
                Effect::Idle
            },
            Message::ToggleSidebar => {
                self.toggle_sidebar();
                Effect::Idle
            },
            Message::SidebarTabSelected(tab) => {
                self.select_tab(tab);
                Effect::Idle
            },
            Message::ToggleLearning(enabled) => {
                self.set_learning(enabled);
                Effect::Idle
            },
            Message::CellPressed(pos) => self.handle_cell_press(pos),
            Message::AiTogglePause => {
                self.toggle_ai_pause();
                Effect::Idle
            },
            Message::AiStep => self.ai_step(),
            Message::AiSpeedUp => {
                self.ai_speed_up();
                Effect::Idle
            },
            Message::AiSpeedDown => {
                self.ai_speed_down();
                Effect::Idle
            },
            Message::Tick(now) => self.tick(now),
            Message::RequestWindowList => Effect::ListWindows,
            Message::WindowListLoaded(result) => {
                self.windows_loaded(result);
                Effect::Idle
            },
            Message::WindowSelected(option) => {
                self.select_window(option);
                Effect::Idle
            },
            Message::ToggleLink => self.toggle_link(),
            Message::LinkTick => Effect::CaptureLink,
            Message::ToggleEngine(enabled) => {
                self.set_engine_enabled(enabled);
                Effect::Idle
            },
            Message::ToggleCloud(enabled) => {
                self.set_cloud_enabled(enabled);
                Effect::Idle
            },
            Message::EngineFinished(result) => {
                self.engine_finished(result);
                Effect::Idle
            },
        }
    }
}

} // verus!
