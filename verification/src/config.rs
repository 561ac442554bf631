//! Settings that a caller may override.

use vstd::prelude::*;
use crate::text::{millionths_text, write_millionths};
use crate::types::{names, Weights};

verus! {

/// Changes to the built-in lists of the file filter.
#[derive(Debug, Default, Clone)]
pub struct FilterOverrides {
    /// Directory names to exclude besides the built-in ones.
    pub extra_exclude_dirs: Vec<String>,
    /// Built-in directory names to let through.
    pub allow_dirs: Vec<String>,
    /// File names to exclude besides the built-in ones.
    pub extra_exclude_files: Vec<String>,
    /// Endings to exclude besides the built-in ones.
    pub extra_exclude_extensions: Vec<String>,
}

/// What a `FilterOverrides` holds.
pub struct OverridesView {
    pub extra_exclude_dirs: Seq<Seq<char>>,
    pub allow_dirs: Seq<Seq<char>>,
    pub extra_exclude_files: Seq<Seq<char>>,
    pub extra_exclude_extensions: Seq<Seq<char>>,
}

impl OverridesView {
    /// No change to the built-in lists.
    pub open spec fn none() -> OverridesView {
        OverridesView {
            extra_exclude_dirs: Seq::empty(),
            allow_dirs: Seq::empty(),
            extra_exclude_files: Seq::empty(),
            extra_exclude_extensions: Seq::empty(),
        }
    }
}

impl View for FilterOverrides {
    type V = OverridesView;

    open spec fn view(&self) -> OverridesView {
        OverridesView {
            extra_exclude_dirs: names(self.extra_exclude_dirs@),
            allow_dirs: names(self.allow_dirs@),
            extra_exclude_files: names(self.extra_exclude_files@),
            extra_exclude_extensions: names(self.extra_exclude_extensions@),
        }
    }
}

impl FilterOverrides {
    /// No change to the built-in lists.
    pub fn none() -> (r: FilterOverrides)
        ensures
            r@ == OverridesView::none(),
    {
        let r = FilterOverrides {
            extra_exclude_dirs: Vec::new(),
            allow_dirs: Vec::new(),
            extra_exclude_files: Vec::new(),
            extra_exclude_extensions: Vec::new(),
        };
        assert(r@.extra_exclude_dirs =~= Seq::empty());
        assert(r@.allow_dirs =~= Seq::empty());
        assert(r@.extra_exclude_files =~= Seq::empty());
        assert(r@.extra_exclude_extensions =~= Seq::empty());
        r
    }
}

/// One of the seven signals that a weight belongs to.
#[derive(Debug, Clone, Copy, PartialEq, Eq, Structural)]
pub enum WeightField {
    Churn,
    Bugs,
    Reverts,
    Bursts,
    Coupling,
    Silo,
    CommitQuality,
}

impl WeightField {
    /// The name of the field in a configuration.
    pub open spec fn name(self) -> Seq<char> {
        match self {
            WeightField::Churn => "churn"@,
            WeightField::Bugs => "bugs"@,
            WeightField::Reverts => "reverts"@,
            WeightField::Bursts => "bursts"@,
            WeightField::Coupling => "coupling"@,
            WeightField::Silo => "silo"@,
            WeightField::CommitQuality => "commit_quality"@,
        }
    }

    /// The name of the field in a configuration.
    pub fn label(&self) -> (r: &'static str)
        ensures
            r@ == self.name(),
    {
        match self {
            WeightField::Churn => "churn",
            WeightField::Bugs => "bugs",
            WeightField::Reverts => "reverts",
            WeightField::Bursts => "bursts",
            WeightField::Coupling => "coupling",
            WeightField::Silo => "silo",
            WeightField::CommitQuality => "commit_quality",
        }
    }
}

/// Weights that a configuration sets, in millionths; a weight that it
/// does not set stays as it is.
#[derive(Debug, Default, Clone, Copy, PartialEq, Eq, Structural)]
pub struct ConfigWeights {
    pub churn: Option<i64>,
    pub bugs: Option<i64>,
    pub reverts: Option<i64>,
    pub bursts: Option<i64>,
    pub coupling: Option<i64>,
    pub silo: Option<i64>,
    pub commit_quality: Option<i64>,
}

/// Whether a weight that is set can be used: it lies above 0.
pub open spec fn usable_weight(w: Option<i64>) -> bool {
    match w {
        Some(v) => 0 < v,
        None => true,
    }
}

impl ConfigWeights {
    /// The first field, in the order of the signals, whose weight cannot
    /// be used.
    pub open spec fn first_unusable(self) -> Option<WeightField> {
        if !usable_weight(self.churn) {
            Some(WeightField::Churn)
        } else if !usable_weight(self.bugs) {
            Some(WeightField::Bugs)
        } else if !usable_weight(self.reverts) {
            Some(WeightField::Reverts)
        } else if !usable_weight(self.bursts) {
            Some(WeightField::Bursts)
        } else if !usable_weight(self.coupling) {
            Some(WeightField::Coupling)
        } else if !usable_weight(self.silo) {
            Some(WeightField::Silo)
        } else if !usable_weight(self.commit_quality) {
            Some(WeightField::CommitQuality)
        } else {
            None
        }
    }

    /// `base` with the weights that are set put in place of its own.
    pub open spec fn applied(self, base: Weights) -> Weights {
        Weights {
            churn: chosen(self.churn, base.churn),
            bugs: chosen(self.bugs, base.bugs),
            reverts: chosen(self.reverts, base.reverts),
            bursts: chosen(self.bursts, base.bursts),
            coupling: chosen(self.coupling, base.coupling),
            silo: chosen(self.silo, base.silo),
            commit_quality: chosen(self.commit_quality, base.commit_quality),
        }
    }

    /// The weight of a field, if it is set.
    pub open spec fn of(self, field: WeightField) -> Option<i64> {
        match field {
            WeightField::Churn => self.churn,
            WeightField::Bugs => self.bugs,
            WeightField::Reverts => self.reverts,
            WeightField::Bursts => self.bursts,
            WeightField::Coupling => self.coupling,
            WeightField::Silo => self.silo,
            WeightField::CommitQuality => self.commit_quality,
        }
    }

    /// The weight of a field, if it is set.
    pub fn get(&self, field: WeightField) -> (r: Option<i64>)
        ensures
            r == self.of(field),
    {
        match field {
            WeightField::Churn => self.churn,
            WeightField::Bugs => self.bugs,
            WeightField::Reverts => self.reverts,
            WeightField::Bursts => self.bursts,
            WeightField::Coupling => self.coupling,
            WeightField::Silo => self.silo,
            WeightField::CommitQuality => self.commit_quality,
        }
    }

    /// The first field whose weight cannot be used.
    pub fn check(&self) -> (r: Option<WeightField>)
        ensures
            r == self.first_unusable(),
            r matches Some(field) ==> self.of(field) is Some,
    {
        if !is_usable(self.churn) {
            Some(WeightField::Churn)
        } else if !is_usable(self.bugs) {
            Some(WeightField::Bugs)
        } else if !is_usable(self.reverts) {
            Some(WeightField::Reverts)
        } else if !is_usable(self.bursts) {
            Some(WeightField::Bursts)
        } else if !is_usable(self.coupling) {
            Some(WeightField::Coupling)
        } else if !is_usable(self.silo) {
            Some(WeightField::Silo)
        } else if !is_usable(self.commit_quality) {
            Some(WeightField::CommitQuality)
        } else {
            None
        }
    }

    /// `base` with the weights that are set put in place of its own.
    pub fn apply(&self, base: &Weights) -> (r: Weights)
        requires
            self.first_unusable() is None,
        ensures
            r == self.applied(*base),
    {
        Weights {
            churn: choose_weight(self.churn, base.churn),
            bugs: choose_weight(self.bugs, base.bugs),
            reverts: choose_weight(self.reverts, base.reverts),
            bursts: choose_weight(self.bursts, base.bursts),
            coupling: choose_weight(self.coupling, base.coupling),
            silo: choose_weight(self.silo, base.silo),
            commit_quality: choose_weight(self.commit_quality, base.commit_quality),
        }
    }
}

/// The weight that is set, or `base` where none is.
pub open spec fn chosen(w: Option<i64>, base: u64) -> u64 {
    match w {
        Some(v) => v as u64,
        None => base,
    }
}

fn is_usable(w: Option<i64>) -> (r: bool)
    ensures
        r == usable_weight(w),
{
    match w {
        Some(v) => 0 < v,
        None => true,
    }
}

fn choose_weight(w: Option<i64>, base: u64) -> (r: u64)
    requires
        usable_weight(w),
    ensures
        r == chosen(w, base),
{
    match w {
        Some(v) => v as u64,
        None => base,
    }
}

/// The settings of a configuration file. Each is optional; one that is
/// left out keeps its default.
#[derive(Debug, Default)]
pub struct ScanlineConfig {
    pub since: Option<String>,
    pub path: Option<String>,
    pub top: Option<usize>,
    pub bugs_only: Option<bool>,
    pub format: Option<String>,
    pub output: Option<String>,
    pub exclude_dirs: Option<Vec<String>>,
    pub include_dirs: Option<Vec<String>>,
    pub exclude_files: Option<Vec<String>>,
    pub exclude_extensions: Option<Vec<String>>,
    pub weights: Option<ConfigWeights>,
}

/// What is wrong with a configuration.
#[derive(Debug, Clone, Copy, PartialEq, Eq, Structural)]
pub enum Fault {
    /// The format is none of `terminal`, `json` and `html`.
    Format,
    /// The number of results is 0.
    Top,
    /// A weight is not above 0.
    Weight(WeightField),
}

/// What is wrong with a configuration, with the value that is wrong.
#[derive(Debug)]
pub enum ConfigError {
    InvalidFormat { value: String },
    ZeroTop,
    /// The weight of `field` is `value` millionths, which is not above 0.
    InvalidWeight { field: WeightField, value: i64 },
}

/// Whether `format` names one of the three output formats.
pub open spec fn is_format(format: Seq<char>) -> bool {
    format == "terminal"@ || format == "json"@ || format == "html"@
}

/// The names of the paths of an optional list, and none where there is
/// no list.
pub open spec fn listed(list: Option<Vec<String>>) -> Seq<Seq<char>> {
    match list {
        Some(v) => names(v@),
        None => Seq::empty(),
    }
}

/// A copy of an optional list, and an empty list where there is none.
fn list_or_empty(list: &Option<Vec<String>>) -> (r: Vec<String>)
    ensures
        names(r@) == listed(*list),
{
    match list {
        Some(v) => crate::file_map::clone_names(v.as_slice()),
        None => {
            let r: Vec<String> = Vec::new();
            assert(names(r@) =~= Seq::empty());
            r
        },
    }
}

impl ScanlineConfig {
    /// What the configuration changes of the filter's lists.
    pub open spec fn overrides(&self) -> OverridesView {
        OverridesView {
            extra_exclude_dirs: listed(self.exclude_dirs),
            allow_dirs: listed(self.include_dirs),
            extra_exclude_files: listed(self.exclude_files),
            extra_exclude_extensions: listed(self.exclude_extensions),
        }
    }

    /// The first thing that is wrong with the configuration: its format,
    /// then its number of results, then its weights in the order of the
    /// signals.
    pub open spec fn first_fault(&self) -> Option<Fault> {
        if self.format matches Some(f) && !is_format(f@) {
            Some(Fault::Format)
        } else if self.top == Some(0usize) {
            Some(Fault::Top)
        } else {
            match self.weights {
                Some(w) => match w.first_unusable() {
                    Some(field) => Some(Fault::Weight(field)),
                    None => None,
                },
                None => None,
            }
        }
    }

    /// The changes to the filter's lists that the configuration asks for.
    pub fn filter_overrides(&self) -> (r: FilterOverrides)
        ensures
            r@ == self.overrides(),
    {
        FilterOverrides {
            extra_exclude_dirs: list_or_empty(&self.exclude_dirs),
            allow_dirs: list_or_empty(&self.include_dirs),
            extra_exclude_files: list_or_empty(&self.exclude_files),
            extra_exclude_extensions: list_or_empty(&self.exclude_extensions),
        }
    }

    /// Checks what a parser of the file cannot: that the format is one of
    /// the three, that the number of results is not 0, and that each
    /// weight that is set lies above 0.
    pub fn validate(&self) -> (r: Result<(), ConfigError>)
        ensures
            match r {
                Ok(_) => self.first_fault() is None,
                Err(e) => self.first_fault() == Some(e.fault()),
            },
            r matches Err(ConfigError::InvalidFormat { value }) ==> self.format matches Some(f)
                && value@ == f@,
            r matches Err(ConfigError::InvalidWeight { field, value }) ==> self.weights matches Some(
                w,
            ) && w.of(field) == Some(value),
    {
        match &self.format {
            Some(f) => {
                let known = *f == "terminal".to_owned() || *f == "json".to_owned() || *f
                    == "html".to_owned();
                if !known {
                    return Err(ConfigError::InvalidFormat { value: f.clone() });
                }
            },
            None => {},
        }
        match self.top {
            Some(n) => {
                if n == 0 {
                    return Err(ConfigError::ZeroTop);
                }
            },
            None => {},
        }
        match &self.weights {
            Some(w) => match w.check() {
                Some(field) => match w.get(field) {
                    Some(value) => Err(ConfigError::InvalidWeight { field, value }),
                    None => Ok(()),
                },
                None => Ok(()),
            },
            None => Ok(()),
        }
    }
}

impl ConfigError {
    /// The kind of the error.
    pub open spec fn fault(&self) -> Fault {
        match self {
            ConfigError::InvalidFormat { value } => Fault::Format,
            ConfigError::ZeroTop => Fault::Top,
            ConfigError::InvalidWeight { field, value } => Fault::Weight(*field),
        }
    }

    /// The text of the error, for the user.
    pub open spec fn text(&self) -> Seq<char> {
        match self {
            ConfigError::InvalidFormat { value } => "Invalid 'format' value: \""@ + value@
                + "\". Expected one of: \"terminal\", \"json\", \"html\""@,
            ConfigError::ZeroTop =>
                "Invalid 'top' value: 0. Must be 1 or greater (use --bugs-only to narrow results instead)"@,
            ConfigError::InvalidWeight { field, value } => "Invalid weight 'weights."@ + field.name()
                + "': "@ + millionths_text(*value as int)
                + ". Weights must be greater than 0. They are normalized automatically, so only the ratios matter (e.g. churn: 2 and bugs: 1 makes churn twice as influential)"@,
        }
    }

    /// The text of the error, for the user.
    pub fn message(&self) -> (r: String)
        ensures
            r@ == self.text(),
    {
        match self {
            ConfigError::InvalidFormat { value } => {
                let mut s = "Invalid 'format' value: \"".to_owned();
                s.append(value.as_str());
                s.append("\". Expected one of: \"terminal\", \"json\", \"html\"");
                s
            },
            ConfigError::ZeroTop =>
                "Invalid 'top' value: 0. Must be 1 or greater (use --bugs-only to narrow results instead)".to_owned(),
            ConfigError::InvalidWeight { field, value } => {
                let mut s = "Invalid weight 'weights.".to_owned();
                s.append(field.label());
                s.append("': ");
                s.append(write_millionths(*value).as_str());
                s.append(
                    ". Weights must be greater than 0. They are normalized automatically, so only the ratios matter (e.g. churn: 2 and bugs: 1 makes churn twice as influential)",
                );
                s
            },
        }
    }
}

} // verus!
