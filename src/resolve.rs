use vstd::prelude::*;
use crate::schema::Schema;
use crate::layer::{LayerModel, PartialLayer, fold_layers};
use crate::validate::{ValidationError, ResolvedConfig, first_missing, resolved_model};
use crate::tokenize::{Arg, ArgParseError, args_view, tokenize, reports};

verus! {

/// What became of one configuration file.
#[derive(Debug)]
pub enum LayerSource {
    /// The file was read and parsed into a layer.
    Loaded(PartialLayer),
    /// The file does not exist: it contributes nothing.
    Missing,
    /// The file exists but could not be read.
    ReadFailed(String),
    /// The file was read but could not be parsed.
    ParseFailed(String),
}

/// Any failure of a resolution.
#[derive(Debug)]
pub enum Error {
    SourceRead(String),
    SourceParse(String),
    Arguments(ArgParseError),
    Validation(ValidationError),
}

/// Every loaded layer fits the schema.
pub open spec fn sources_fit(schema: &Schema, sources: Seq<LayerSource>) -> bool {
    forall|k: int|
        0 <= k < sources.len() ==> match #[trigger] sources[k] {
            LayerSource::Loaded(l) => l@.fits(schema),
            _ => true,
        }
}

/// Folds `sources[i..]` into `base` with `set_if_absent`, skipping missing
/// files; stops at the index of the first source that failed.
pub open spec fn fold_sources(base: LayerModel, sources: Seq<LayerSource>, i: int) -> Result<
    LayerModel,
    int,
>
    decreases sources.len() - i,
{
    if i >= sources.len() || i < 0 {
        Ok(base)
    } else {
        match sources[i] {
            LayerSource::Loaded(l) => fold_sources(base.set_if_absent(l@), sources, i + 1),
            LayerSource::Missing => fold_sources(base, sources, i + 1),
            _ => Err(i),
        }
    }
}

/// The layers of `sources[i..]` that were loaded, in order.
pub open spec fn loaded_layers(sources: Seq<LayerSource>, i: int) -> Seq<LayerModel>
    decreases sources.len() - i,
{
    if i >= sources.len() || i < 0 {
        Seq::empty()
    } else {
        match sources[i] {
            LayerSource::Loaded(l) => seq![l@] + loaded_layers(sources, i + 1),
            _ => loaded_layers(sources, i + 1),
        }
    }
}

/// No source from `i` on failed to be read or parsed.
pub open spec fn no_failures(sources: Seq<LayerSource>, i: int) -> bool {
    forall|k: int|
        i <= k < sources.len() ==> (#[trigger] sources[k] is Loaded) || sources[k] is Missing
}

/// When no file fails, folding the sources is the left-to-right
/// `set_if_absent` fold of the loaded layers, missing files skipped.
pub proof fn lemma_fold_sources_is_fold(base: LayerModel, sources: Seq<LayerSource>, i: int)
    requires
        0 <= i,
        no_failures(sources, i),
    ensures
        fold_sources(base, sources, i) == Ok::<LayerModel, int>(
            fold_layers(base, loaded_layers(sources, i)),
        ),
    decreases sources.len() - i,
{
    if i < sources.len() {
        assert(sources[i] is Loaded || sources[i] is Missing);
        match sources[i] {
            LayerSource::Loaded(l) => {
                let rest = loaded_layers(sources, i + 1);
                lemma_fold_sources_is_fold(base.set_if_absent(l@), sources, i + 1);
                assert((seq![l@] + rest).drop_first() =~= rest);
                assert((seq![l@] + rest)[0] == l@);
            },
            _ => {
                lemma_fold_sources_is_fold(base, sources, i + 1);
            },
        }
    }
}

/// `e` is the error that reports the failure of source `s`.
pub open spec fn reports_source(e: Error, s: LayerSource) -> bool {
    match (e, s) {
        (Error::SourceRead(m), LayerSource::ReadFailed(n)) => m@ == n@,
        (Error::SourceParse(m), LayerSource::ParseFailed(n)) => m@ == n@,
        _ => false,
    }
}

/// `r` is what folding `sources` from an empty layer gives.
pub open spec fn sources_outcome(
    schema: &Schema,
    sources: Seq<LayerSource>,
    r: Result<PartialLayer, Error>,
) -> bool {
    match (r, fold_sources(LayerModel::empty(schema.params@.len(), schema.switches@.len()), sources, 0)) {
        (Ok(l), Ok(m)) => l@ == m && l@.fits(schema),
        (Err(e), Err(k)) => reports_source(e, sources[k]),
        _ => false,
    }
}

/// Folds the file layers, in descending priority, into one layer: for each
/// field the first file that sets it wins; a missing file is skipped; the
/// first file that failed otherwise aborts the fold with its error.
pub fn merge_sources(schema: &Schema, sources: &Vec<LayerSource>) -> (r: Result<PartialLayer, Error>)
    requires
        sources_fit(schema, sources@),
    ensures
        sources_outcome(schema, sources@, r),
{
    let mut layer = PartialLayer::empty(schema);
    let ghost e = layer@;
    let mut i: usize = 0;
    while i < sources.len()
        invariant
            i <= sources@.len(),
            sources_fit(schema, sources@),
            layer@.fits(schema),
            e == LayerModel::empty(schema.params@.len(), schema.switches@.len()),
            fold_sources(layer@, sources@, i as int) == fold_sources(e, sources@, 0),
        decreases sources@.len() - i,
    {
        match &sources[i] {
            LayerSource::Loaded(l) => {
                assert(l@.fits(schema));
                layer.set_if_absent(l);
            },
            LayerSource::Missing => {},
            LayerSource::ReadFailed(m) => {
                return Err(Error::SourceRead(m.clone()));
            },
            LayerSource::ParseFailed(m) => {
                return Err(Error::SourceParse(m.clone()));
            },
        }
        i = i + 1;
    }
    Ok(layer)
}

/// A resolved configuration with the command line's program token and the
/// tokens left for the caller.
#[derive(Debug)]
pub struct Resolution {
    pub config: ResolvedConfig,
    pub program: Option<Arg>,
    pub remainder: Vec<Arg>,
}

/// `r` is what resolving `sources` and `args` against `schema` gives: the
/// file fold, then the command-line flags on top, then validation.
pub open spec fn resolution_outcome(
    schema: &Schema,
    sources: Seq<LayerSource>,
    args: Seq<Arg>,
    r: Result<Resolution, Error>,
) -> bool {
    match fold_sources(LayerModel::empty(schema.params@.len(), schema.switches@.len()), sources, 0) {
        Err(k) => r is Err && reports_source(r->Err_0, sources[k]),
        Ok(files) => match tokenize(schema, files, args_view(args)) {
            Err(f) => match r {
                Err(Error::Arguments(e)) => reports(schema, e, f),
                _ => false,
            },
            Ok((merged, start)) => match first_missing(schema, merged) {
                Some(k) => match r {
                    Err(Error::Validation(ValidationError::MissingField(n))) => n@
                        == schema.params@[k].name@,
                    _ => false,
                },
                None => match r {
                    Ok(res) => {
                        &&& res.config@ == resolved_model(schema, merged)
                        &&& schema.wf() ==> res.config@.fits(schema)
                        &&& args_view(res.remainder@) == args_view(args).subrange(
                            start,
                            args.len() as int,
                        )
                        &&& match res.program {
                            Some(a) => args.len() > 0 && a@ == args[0]@,
                            None => args.len() == 0,
                        }
                    },
                    _ => false,
                },
            },
        },
    }
}

/// Resolves a configuration: folds the file layers (earlier files win),
/// applies the command-line tokens on top (the command line always wins),
/// and validates the result.
pub fn resolve(schema: &Schema, sources: &Vec<LayerSource>, args: Vec<Arg>) -> (r: Result<
    Resolution,
    Error,
>)
    requires
        sources_fit(schema, sources@),
    ensures
        resolution_outcome(schema, sources@, args@, r),
{
    let files = match merge_sources(schema, sources) {
        Ok(l) => l,
        Err(e) => {
            return Err(e);
        },
    };
    let merged = match files.merge_args(schema, args) {
        Ok(m) => m,
        Err(e) => {
            return Err(Error::Arguments(e));
        },
    };
    match merged.layer.validate(schema) {
        Ok(config) => Ok(Resolution { config, program: merged.program, remainder: merged.remainder }),
        Err(e) => Err(Error::Validation(e)),
    }
}

} // verus!
