//! The transform configuration and the preview/save pipeline orchestrator.
//!
//! `Config` holds the chosen transform mode, its parameter, and the
//! proposed output filename. `Menu` wires the configuration, the staging
//! directory and the current selection into `Preview`, `Save` and `Reset`
//! commands; the mapper invocation itself is handed back to the caller as
//! a job to run.

use vstd::prelude::*;
use crate::browser::Browser;
use crate::filekind::is_valid_filename;
use crate::filekind::filename_is_valid;
use crate::pathtext::{base_name, base_name_of, join, join_path, stem, stem_of};
use crate::staging::{preview_name_shape, Staging};

verus! {

/// The transform modes: the plain Nord palette mapping, a creative
/// variant, and a k-nearest-neighbour strategy parameterized by `k`.
#[derive(Clone, Copy, Debug, PartialEq, Eq, Structural)]
pub enum Mode {
    Default,
    Creative,
    Knn,
}

impl Mode {
    /// The mode's display label.
    pub fn label(&self) -> (r: &'static str)
        ensures
            self is Default ==> r@ == "Default"@,
            self is Creative ==> r@ == "Creative"@,
            self is Knn ==> r@ == "kNN"@,
    {
        match self {
            Mode::Default => "Default",
            Mode::Creative => "Creative",
            Mode::Knn => "kNN",
        }
    }
}

/// A k-value update: direct from the slider, or text to be parsed.
#[derive(Clone, Debug)]
pub enum UType {
    Text(String),
    Num(u8),
}

/// A command for the pipeline orchestrator.
#[derive(Clone, Debug)]
pub enum MenuEvent {
    Preview,
    Save,
    Reset,
    SelectMode(Mode),
    FilenameChanged(String),
    FocusFileName,
    SetKVal(UType),
}

/// The transform configuration: mode, proposed output filename, and the
/// k parameter, which is retained even while the mode is not `Knn`.
pub struct Config {
    pub mode: Mode,
    pub filename: String,
    pub kval: u8,
}

/// The mathematical model of the configuration.
pub struct ConfigModel {
    pub mode: Mode,
    pub filename: Seq<char>,
    pub kval: u8,
}

impl View for Config {
    type V = ConfigModel;

    open spec fn view(&self) -> ConfigModel {
        ConfigModel { mode: self.mode, filename: self.filename@, kval: self.kval }
    }
}

/// The configuration every session starts with, and that `Reset` restores:
/// default mode, empty filename, k of 32.
pub open spec fn default_config() -> ConfigModel {
    ConfigModel { mode: Mode::Default, filename: Seq::empty(), kval: 32 }
}

impl Default for Config {
    fn default() -> (r: Config)
        ensures
            r@ == default_config(),
    {
        let c = Config { mode: Mode::Default, filename: String::new(), kval: 32 };
        proof {
            assert(c@.filename =~= Seq::<char>::empty());
        }
        c
    }
}

/// A digit run read as a decimal number.
pub open spec fn digits_value(s: Seq<char>) -> int
    decreases s.len(),
{
    if s.len() == 0 {
        0
    } else {
        digits_value(s.drop_last()) * 10 + (s.last() as int - '0' as int)
    }
}

/// Every character is an ASCII decimal digit.
pub open spec fn all_digits(s: Seq<char>) -> bool {
    forall|i: int| 0 <= i < s.len() ==> '0' <= #[trigger] s[i] && s[i] <= '9'
}

/// What parsing text as a `u8` yields: an optional leading `+`, then at
/// least one digit, all digits, value at most 255; anything else fails.
pub open spec fn parse_u8_model(s: Seq<char>) -> Option<u8> {
    let digits = if s.len() > 0 && s[0] == '+' {
        s.drop_first()
    } else {
        s
    };
    if digits.len() > 0 && all_digits(digits) && digits_value(digits) <= 255 {
        Some(digits_value(digits) as u8)
    } else {
        None
    }
}

/// A digit run's value is never negative.
proof fn lemma_digits_value_nonneg(s: Seq<char>)
    requires
        all_digits(s),
    ensures
        digits_value(s) >= 0,
    decreases s.len(),
{
    if s.len() > 0 {
        assert(all_digits(s.drop_last()));
        lemma_digits_value_nonneg(s.drop_last());
    }
}

/// Reading more digits never shrinks the value.
proof fn lemma_digits_value_mono(s: Seq<char>, k: int)
    requires
        all_digits(s),
        0 <= k <= s.len(),
    ensures
        digits_value(s) >= digits_value(s.subrange(0, k)),
    decreases s.len() - k,
{
    if k == s.len() {
        assert(s.subrange(0, k) =~= s);
    } else {
        assert(all_digits(s.drop_last()));
        assert(s.drop_last().subrange(0, k) =~= s.subrange(0, k));
        lemma_digits_value_mono(s.drop_last(), k);
        lemma_digits_value_nonneg(s.drop_last());
    }
}

/// Parses text as a `u8`, exactly as `parse_u8_model` says.
pub fn parse_u8(s: &str) -> (r: Option<u8>)
    ensures
        r == parse_u8_model(s@),
{
    let n = s.unicode_len();
    let mut start: usize = 0;
    if n > 0 && s.get_char(0) == '+' {
        start = 1;
    }
    let ghost digits: Seq<char> = if s@.len() > 0 && s@[0] == '+' {
        s@.drop_first()
    } else {
        s@
    };
    proof {
        assert(digits =~= s@.skip(start as int));
    }
    if start >= n {
        return None;
    }
    let mut acc: u32 = 0;
    let mut i: usize = start;
    proof {
        assert(digits.subrange(0, 0) =~= Seq::<char>::empty());
    }
    while i < n
        invariant
            start <= i <= n,
            n == s@.len(),
            start == 0 || (s@.len() > 0 && s@[0] == '+' && start == 1),
            digits == s@.skip(start as int),
            digits == (if s@.len() > 0 && s@[0] == '+' {
                s@.drop_first()
            } else {
                s@
            }),
            digits.len() == n - start,
            acc <= 255,
            all_digits(digits.subrange(0, i - start)),
            acc == digits_value(digits.subrange(0, i - start)),
        decreases n - i,
    {
        let c = s.get_char(i);
        proof {
            assert(digits[i - start] == s@[i as int]);
        }
        if !('0' <= c && c <= '9') {
            proof {
                assert(!all_digits(digits));
            }
            return None;
        }
        let d: u32 = c as u32 - 48;
        proof {
            assert(digits.subrange(0, i - start + 1).drop_last() =~= digits.subrange(
                0,
                i - start,
            ));
            assert(digits.subrange(0, i - start + 1).last() == digits[i - start]);
        }
        if acc * 10 + d > 255 {
            proof {
                assert(digits_value(digits.subrange(0, i - start + 1)) == acc * 10 + d);
                if all_digits(digits) {
                    lemma_digits_value_mono(digits, i - start + 1);
                    lemma_digits_value_nonneg(digits);
                }
            }
            return None;
        }
        acc = acc * 10 + d;
        i = i + 1;
    }
    proof {
        assert(digits.subrange(0, n - start) =~= digits);
    }
    Some(acc as u8)
}

/// What a k-value update does to the configuration: a number lands
/// directly; text lands when it parses and is otherwise ignored.
pub open spec fn set_k_model(c: ConfigModel, u: UType) -> ConfigModel {
    match u {
        UType::Num(v) => ConfigModel { mode: c.mode, filename: c.filename, kval: v },
        UType::Text(t) => match parse_u8_model(t@) {
            Some(v) => ConfigModel { mode: c.mode, filename: c.filename, kval: v },
            None => c,
        },
    }
}

/// What `Reset` leaves behind: the defaults, with the filename proposal
/// `<stem of the selection's base name>_nordified.png` when an image is
/// selected.
pub open spec fn reset_model(sel: Option<Seq<char>>) -> ConfigModel {
    match sel {
        None => default_config(),
        Some(p) => ConfigModel {
            mode: Mode::Default,
            filename: stem_of(base_name(p)) + "_nordified.png"@,
            kval: 32,
        },
    }
}

impl Config {
    /// Replaces the transform mode.
    pub fn set_mode(&mut self, m: Mode)
        ensures
            final(self)@ == (ConfigModel {
                mode: m,
                filename: old(self)@.filename,
                kval: old(self)@.kval,
            }),
    {
        self.mode = m;
    }

    /// Applies a k-value update; unparsable text is silently ignored.
    pub fn set_k(&mut self, u: UType)
        ensures
            final(self)@ == set_k_model(old(self)@, u),
    {
        match u {
            UType::Num(v) => self.kval = v,
            UType::Text(t) => match parse_u8(t.as_str()) {
                Some(v) => self.kval = v,
                None => (),
            },
        }
    }

    /// Overwrites the proposed output filename; validity is judged on
    /// read, not on write.
    pub fn set_filename(&mut self, text: String)
        ensures
            final(self)@ == (ConfigModel {
                mode: old(self)@.mode,
                filename: text@,
                kval: old(self)@.kval,
            }),
    {
        self.filename = text;
    }
}

/// The mapper strategy a configuration selects: one of exactly three, with
/// `Knn` carrying its k parameter.
#[derive(Clone, Copy, Debug, PartialEq, Eq, Structural)]
pub enum Strategy {
    Default,
    Creative,
    Knn(u8),
}

/// The strategy the configuration's mode selects.
pub open spec fn strategy_of(c: ConfigModel) -> Strategy {
    match c.mode {
        Mode::Default => Strategy::Default,
        Mode::Creative => Strategy::Creative,
        Mode::Knn => Strategy::Knn(c.kval),
    }
}

/// Selects the mapper strategy for a configuration.
pub fn strategy_for(c: &Config) -> (r: Strategy)
    ensures
        r == strategy_of(c@),
{
    match c.mode {
        Mode::Default => Strategy::Default,
        Mode::Creative => Strategy::Creative,
        Mode::Knn => Strategy::Knn(c.kval),
    }
}

/// One synchronous mapper invocation: read `input`, transform it with
/// `strategy`, write `output`.
pub struct MapperJob {
    pub input: String,
    pub output: String,
    pub strategy: Strategy,
}

/// The mathematical model of a mapper job.
pub struct JobModel {
    pub input: Seq<char>,
    pub output: Seq<char>,
    pub strategy: Strategy,
}

impl View for MapperJob {
    type V = JobModel;

    open spec fn view(&self) -> JobModel {
        JobModel { input: self.input@, output: self.output@, strategy: self.strategy }
    }
}

/// What a pipeline command asks its caller to do next.
pub enum MenuAction {
    Idle,
    FocusFilename,
    RunPreview(MapperJob),
    RunSave(MapperJob),
}

/// The mathematical model of a requested pipeline action.
pub enum MenuActionModel {
    Idle,
    FocusFilename,
    RunPreview(JobModel),
    RunSave(JobModel),
}

impl View for MenuAction {
    type V = MenuActionModel;

    open spec fn view(&self) -> MenuActionModel {
        match self {
            MenuAction::Idle => MenuActionModel::Idle,
            MenuAction::FocusFilename => MenuActionModel::FocusFilename,
            MenuAction::RunPreview(j) => MenuActionModel::RunPreview(j@),
            MenuAction::RunSave(j) => MenuActionModel::RunSave(j@),
        }
    }
}

/// The pipeline orchestrator: the configuration plus the staging
/// directory for ephemeral preview renders.
pub struct Menu {
    pub config: Config,
    pub staging: Staging,
}

impl Menu {
    /// A fresh orchestrator over the given staging root, with the default
    /// configuration.
    pub fn new(staging_root: String) -> (r: Menu)
        ensures
            r.config@ == default_config(),
            r.staging.root@ == staging_root@,
    {
        Menu { config: Config::default(), staging: Staging::new(staging_root) }
    }

    /// Runs one pipeline command against the current selection.
    ///
    /// `Preview` is a no-op without a selection; with one it asks for a
    /// mapper run into a fresh staging path. `Save` is a no-op unless a
    /// selection exists and the filename is valid; then it asks for a
    /// mapper run into the current directory. `Reset` restores the
    /// default configuration and proposes a filename from the selection.
    pub fn update(&mut self, browser: &Browser, event: MenuEvent) -> (a: MenuAction)
        ensures
            final(self).staging.root@ == old(self).staging.root@,
            event matches MenuEvent::Preview ==> final(self).config@ == old(self).config@ && (
            match browser@.selection {
                None => a@ == MenuActionModel::Idle,
                Some(sel) => a@ matches MenuActionModel::RunPreview(job) && job.input == sel
                    && job.strategy == strategy_of(old(self).config@) && preview_name_shape(
                    old(self).staging.root@,
                    job.output,
                ),
            }),
            event matches MenuEvent::Save ==> final(self).config@ == old(self).config@ && (
            match browser@.selection {
                None => a@ == MenuActionModel::Idle,
                Some(sel) => {
                    if is_valid_filename(old(self).config@.filename) {
                        a@ matches MenuActionModel::RunSave(job) && job.input == sel
                            && job.output == join_path(
                            browser@.current_dir,
                            old(self).config@.filename,
                        ) && job.strategy == strategy_of(old(self).config@)
                    } else {
                        a@ == MenuActionModel::Idle
                    }
                },
            }),
            event matches MenuEvent::Reset ==> final(self).config@ == reset_model(
                browser@.selection,
            ) && a@ == MenuActionModel::Idle,
            event matches MenuEvent::SelectMode(m) ==> final(self).config@ == (ConfigModel {
                mode: m,
                filename: old(self).config@.filename,
                kval: old(self).config@.kval,
            }) && a@ == MenuActionModel::Idle,
            event matches MenuEvent::SetKVal(u) ==> final(self).config@ == set_k_model(
                old(self).config@,
                u,
            ) && a@ == MenuActionModel::Idle,
            event matches MenuEvent::FilenameChanged(t) ==> final(self).config@ == (ConfigModel {
                mode: old(self).config@.mode,
                filename: t@,
                kval: old(self).config@.kval,
            }) && a@ == MenuActionModel::Idle,
            event matches MenuEvent::FocusFileName ==> final(self).config@ == old(self).config@
                && a@ == MenuActionModel::FocusFilename,
    {
        match event {
            MenuEvent::Preview => match &browser.global_selection {
                None => MenuAction::Idle,
                Some(sel) => {
                    let out = self.staging.new_output_path();
                    MenuAction::RunPreview(
                        MapperJob {
                            input: sel.clone(),
                            output: out,
                            strategy: strategy_for(&self.config),
                        },
                    )
                },
            },
            MenuEvent::Save => match &browser.global_selection {
                None => MenuAction::Idle,
                Some(sel) => {
                    if filename_is_valid(self.config.filename.as_str()) {
                        let out = join(browser.current_dir.as_str(), self.config.filename.as_str());
                        MenuAction::RunSave(
                            MapperJob {
                                input: sel.clone(),
                                output: out,
                                strategy: strategy_for(&self.config),
                            },
                        )
                    } else {
                        MenuAction::Idle
                    }
                },
            },
            MenuEvent::Reset => {
                self.config = Config::default();
                match &browser.global_selection {
                    None => (),
                    Some(sel) => {
                        let base = base_name_of(sel.as_str());
                        let mut proposal = stem(base.as_str());
                        proposal.append("_nordified.png");
                        self.config.filename = proposal;
                    },
                }
                MenuAction::Idle
            },
            MenuEvent::SelectMode(m) => {
                self.config.set_mode(m);
                MenuAction::Idle
            },
            MenuEvent::SetKVal(u) => {
                self.config.set_k(u);
                MenuAction::Idle
            },
            MenuEvent::FilenameChanged(t) => {
                self.config.set_filename(t);
                MenuAction::Idle
            },
            MenuEvent::FocusFileName => MenuAction::FocusFilename,
        }
    }
}

} // verus!
