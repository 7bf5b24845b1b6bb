//! Named presets and the options a generation request is made with.

use vstd::prelude::*;
use crate::rules::Weights;
use crate::rules::WeightsModel;
use crate::rules::Override;
use crate::rules::OverrideModel;
use crate::rules::spec_compose_weights;

verus! {

/// A named preset a seed can be generated from.
#[derive(Debug, Clone, Copy, PartialEq, Eq, Structural)]
pub enum Preset {
    Solo,
    CoOp,
    Multiworld,
}

/// The name given is no preset.
#[derive(Debug, Clone, Copy, PartialEq, Eq, Structural)]
pub struct PresetParseError;

impl PresetParseError {
    /// A one-line description of the failure.
    pub fn message(&self) -> (r: String)
        ensures
            r@ == "unknown preset"@,
    {
        String::from_str("unknown preset")
    }
}

/// The preset a name denotes: `solo`, `coop` or `co-op`, and `multiworld`;
/// every other name is rejected.
pub open spec fn spec_parse_preset(s: Seq<char>) -> Result<Preset, PresetParseError> {
    if s == "solo"@ {
        Ok(Preset::Solo)
    } else if s == "coop"@ || s == "co-op"@ {
        Ok(Preset::CoOp)
    } else if s == "multiworld"@ {
        Ok(Preset::Multiworld)
    } else {
        Err(PresetParseError)
    }
}

impl Preset {
    /// Parses a preset name, exactly as [`spec_parse_preset`] states.
    pub fn from_str(s: &str) -> (r: Result<Preset, PresetParseError>)
        ensures
            r == spec_parse_preset(s@),
    {
        let t = s.to_owned();
        if t == String::from_str("solo") {
            Ok(Preset::Solo)
        } else if t == String::from_str("coop") || t == String::from_str("co-op") {
            Ok(Preset::CoOp)
        } else if t == String::from_str("multiworld") {
            Ok(Preset::Multiworld)
        } else {
            Err(PresetParseError)
        }
    }
}

/// Adjustments a preset is generated with.
#[derive(Debug, Clone, Copy, PartialEq, Eq, Structural)]
pub struct PresetOptions {
    /// Keep the standard trick pool allowed.
    pub standard_tricks: bool,
    /// Keep the extended trick pool allowed.
    pub rsl_tricks: bool,
    /// Keep random starting-inventory sampling enabled.
    pub random_starting_items: bool,
    /// Number of worlds for the multiworld preset.
    pub world_count: u8,
}

impl Default for PresetOptions {
    /// Everything enabled, one world.
    fn default() -> (r: PresetOptions)
        ensures
            r.standard_tricks,
            r.rsl_tricks,
            r.random_starting_items,
            r.world_count == 1,
    {
        PresetOptions { standard_tricks: true, rsl_tricks: true, random_starting_items: true, world_count: 1 }
    }
}

/// What to generate: the pinned league document, a named preset with
/// options, or a caller-supplied document.
#[derive(Debug, Clone)]
pub enum GenOptions {
    League,
    Preset { preset: Preset, options: PresetOptions },
    Custom(Weights),
}

/// The mathematical shape of a [`GenOptions`] value.
#[verifier::ext_equal]
pub enum GenOptionsModel {
    League,
    Preset { preset: Preset, options: PresetOptions },
    Custom(WeightsModel),
}

impl DeepView for GenOptions {
    type V = GenOptionsModel;

    open spec fn deep_view(&self) -> GenOptionsModel {
        match self {
            GenOptions::League => GenOptionsModel::League,
            GenOptions::Preset { preset, options } => GenOptionsModel::Preset {
                preset: *preset,
                options: *options,
            },
            GenOptions::Custom(w) => GenOptionsModel::Custom(w.deep_view()),
        }
    }
}

/// The embedded documents that named presets are built from: the base
/// weights document, the two preset patches, and the two trick name lists.
#[derive(Debug, Clone)]
pub struct PresetAssets {
    pub base: Weights,
    pub coop: Override,
    pub multiworld: Override,
    pub standard_tricks: Vec<String>,
    pub rsl_tricks: Vec<String>,
}

/// The mathematical shape of [`PresetAssets`].
#[verifier::ext_equal]
pub struct PresetAssetsModel {
    pub base: WeightsModel,
    pub coop: OverrideModel,
    pub multiworld: OverrideModel,
    pub standard_tricks: Seq<Seq<char>>,
    pub rsl_tricks: Seq<Seq<char>>,
}

impl DeepView for PresetAssets {
    type V = PresetAssetsModel;

    open spec fn deep_view(&self) -> PresetAssetsModel {
        PresetAssetsModel {
            base: self.base.deep_view(),
            coop: self.coop.deep_view(),
            multiworld: self.multiworld.deep_view(),
            standard_tricks: self.standard_tricks.deep_view(),
            rsl_tricks: self.rsl_tricks.deep_view(),
        }
    }
}

/// The document a generation request resolves: a custom document is taken
/// as is; the league options take the base document as is; a named preset
/// composes its patch onto the base, sets the world count for multiworld,
/// replaces the allowed tricks per the trick options, and switches random
/// starting items off when asked to.
pub open spec fn spec_weights_for(o: GenOptionsModel, a: PresetAssetsModel) -> WeightsModel {
    match o {
        GenOptionsModel::League => a.base,
        GenOptionsModel::Custom(w) => w,
        GenOptionsModel::Preset { preset, options } => {
            let composed = match preset {
                Preset::Solo => a.base,
                Preset::CoOp => spec_compose_weights(a.base, a.coop),
                Preset::Multiworld => WeightsModel {
                    world_count: options.world_count,
                    ..spec_compose_weights(a.base, a.multiworld)
                },
            };
            let tricked = if options.standard_tricks && options.rsl_tricks {
                composed
            } else if options.standard_tricks {
                WeightsModel { allowed_tricks: a.standard_tricks, ..composed }
            } else if options.rsl_tricks {
                WeightsModel { allowed_tricks: a.rsl_tricks, ..composed }
            } else {
                WeightsModel { allowed_tricks: Seq::empty(), ..composed }
            };
            if options.random_starting_items {
                tricked
            } else {
                WeightsModel { random_starting_items: false, ..tricked }
            }
        },
    }
}

impl Weights {
    /// Builds the document a generation request resolves, exactly as
    /// [`spec_weights_for`] states.
    pub fn from_options(options: GenOptions, assets: PresetAssets) -> (r: Weights)
        ensures
            r.deep_view() == spec_weights_for(options.deep_view(), assets.deep_view()),
    {
        let ghost od = options.deep_view();
        let ghost ad = assets.deep_view();
        match options {
            GenOptions::League => assets.base,
            GenOptions::Custom(w) => w,
            GenOptions::Preset { preset, options } => {
                let PresetAssets { base, coop, multiworld, standard_tricks, rsl_tricks } = assets;
                let mut weights = base;
                match preset {
                    Preset::Solo => {},
                    Preset::CoOp => {
                        weights.compose(coop);
                    },
                    Preset::Multiworld => {
                        weights.compose(multiworld);
                        weights.world_count = options.world_count;
                    },
                }
                if !(options.standard_tricks && options.rsl_tricks) {
                    if options.standard_tricks {
                        weights.allowed_tricks = standard_tricks;
                    } else if options.rsl_tricks {
                        weights.allowed_tricks = rsl_tricks;
                    } else {
                        let no_tricks: Vec<String> = Vec::new();
                        proof {
                            assert(no_tricks.deep_view() =~= Seq::<Seq<char>>::empty());
                        }
                        weights.allowed_tricks = no_tricks;
                    }
                }
                if !options.random_starting_items {
                    weights.random_starting_items = false;
                }
                proof {
                    assert(weights.deep_view() =~= spec_weights_for(od, ad));
                }
                weights
            },
        }
    }
}

} // verus!
