use vstd::prelude::*;

verus! {

/// A frame delay, kept exactly as written: `units / 10^decimals` ticks.
#[derive(Clone, Copy, Debug, PartialEq, Eq, Structural)]
pub struct Delay {
    pub units: u64,
    pub decimals: usize,
}

/// One named animation sequence of an icon file.
#[derive(Clone, Debug, PartialEq, Eq)]
pub struct IconState {
    pub name: String,
    pub direction_count: u8,
    pub frame_count: u8,
    pub rewinds: bool,
    pub loop_count: u8,
    pub frame_delays: Vec<Delay>,
}

/// The animation metadata of an icon file.
#[derive(Clone, Debug, PartialEq, Eq)]
pub struct IconFile {
    pub version: String,
    pub cell_width: u16,
    pub cell_height: u16,
    pub states: Vec<IconState>,
}

/// The name the icon format goes by.
pub type Dmi = IconFile;

pub ghost struct IconStateView {
    pub name: Seq<char>,
    pub direction_count: u8,
    pub frame_count: u8,
    pub rewinds: bool,
    pub loop_count: u8,
    pub frame_delays: Seq<Delay>,
}

pub ghost struct IconFileView {
    pub version: Seq<char>,
    pub cell_width: u16,
    pub cell_height: u16,
    pub states: Seq<IconStateView>,
}

impl View for IconState {
    type V = IconStateView;

    open spec fn view(&self) -> IconStateView {
        IconStateView {
            name: self.name@,
            direction_count: self.direction_count,
            frame_count: self.frame_count,
            rewinds: self.rewinds,
            loop_count: self.loop_count,
            frame_delays: self.frame_delays@,
        }
    }
}

pub open spec fn states_view(s: Seq<IconState>) -> Seq<IconStateView> {
    s.map_values(|x: IconState| x@)
}

impl View for IconFile {
    type V = IconFileView;

    open spec fn view(&self) -> IconFileView {
        IconFileView {
            version: self.version@,
            cell_width: self.cell_width,
            cell_height: self.cell_height,
            states: states_view(self.states@),
        }
    }
}

/// Why an icon file could not be read. Line numbers count from 1.
#[derive(Clone, Copy, Debug, PartialEq, Eq, Structural)]
pub enum FormatError {
    BadSignature,
    Truncated,
    MissingKeywordTerminator,
    UnsupportedCompression,
    DecompressionFailed,
    DescriptionTooLarge,
    InvalidText,
    NoDescriptionChunk,
    InvalidDirection(usize),
    DelayMismatch(usize),
    InvalidValue(usize),
    MisplacedField(usize),
    MalformedLine(usize),
    MissingDimensions,
}

pub open spec fn file_result_view(r: Result<IconFile, FormatError>) -> Result<IconFileView, FormatError> {
    match r {
        Ok(f) => Ok(f@),
        Err(e) => Err(e),
    }
}

} // verus!
