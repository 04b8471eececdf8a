use vstd::prelude::*;

verus! {

/// The thin strip at the screen edge that reveals the dock when the pointer
/// enters it.
pub struct IndicatorModel {
    visible: bool,
}

/// Messages the indicator accepts.
#[derive(Debug)]
pub enum Input {
    Enter,
    Leave,
}

/// What the indicator reports.
#[derive(Debug)]
pub enum Output {
    Enter,
}

impl IndicatorModel {
    pub closed spec fn is_visible(&self) -> bool {
        self.visible
    }

    /// A shown indicator.
    pub fn init() -> (m: Self)
        ensures
            m.is_visible(),
    {
        IndicatorModel { visible: true }
    }

    pub fn visible(&self) -> (b: bool)
        ensures
            b == self.is_visible(),
    {
        self.visible
    }

    /// The pointer entering hides the indicator and reports `Enter` (so the
    /// dock shows itself); the pointer leaving the dock shows it again.
    pub fn update(&mut self, msg: Input) -> (out: Option<Output>)
        ensures
            match msg {
                Input::Enter => !final(self).is_visible() && out matches Some(Output::Enter),
                Input::Leave => final(self).is_visible() && out is None,
            },
    {
        match msg {
            Input::Enter => {
                self.visible = false;
                Some(Output::Enter)
            },
            Input::Leave => {
                self.visible = true;
                None
            },
        }
    }
}

} // verus!
