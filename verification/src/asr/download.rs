//! Which files of the model repository the engine needs, and in what order
//! they are asked for.
//!
//! The fetching itself (a download into the local cache, or a cache hit) is
//! the caller's: it hands in a function that makes the file present and
//! returns where it lies. The small files come first: the preprocessor is
//! also the model that probes the GPU, and the vocabulary is small, so the
//! big encoder is not pulled before it is known which precision is wanted.

use vstd::prelude::*;

verus! {

/// The repository that holds the model.
pub const REPO: &'static str = "istupakov/parakeet-tdt-0.6b-v2-onnx";

/// A file of the model repository.
#[derive(Debug, Clone, Copy, PartialEq, Eq, Structural)]
pub enum ModelFile {
    /// The mel-spectrogram preprocessor (`nemo128.onnx`).
    Preprocessor,
    /// The token list (`vocab.txt`).
    Vocab,
    /// The quantized encoder, for the CPU.
    EncoderInt8,
    /// The quantized decoder and joint network, for the CPU.
    DecoderJointInt8,
    /// The full-precision encoder graph, for the GPU.
    Encoder,
    /// The full-precision encoder's weights, which must lie next to its
    /// graph.
    EncoderData,
    /// The full-precision decoder and joint network, for the GPU.
    DecoderJoint,
}

pub open spec fn spec_file_name(f: ModelFile) -> Seq<char> {
    match f {
        ModelFile::Preprocessor => "nemo128.onnx"@,
        ModelFile::Vocab => "vocab.txt"@,
        ModelFile::EncoderInt8 => "encoder-model.int8.onnx"@,
        ModelFile::DecoderJointInt8 => "decoder_joint-model.int8.onnx"@,
        ModelFile::Encoder => "encoder-model.onnx"@,
        ModelFile::EncoderData => "encoder-model.onnx.data"@,
        ModelFile::DecoderJoint => "decoder_joint-model.onnx"@,
    }
}

impl ModelFile {
    /// The file's name in the repository.
    pub fn file_name(self) -> (s: &'static str)
        ensures
            s@ == spec_file_name(self),
    {
        match self {
            ModelFile::Preprocessor => "nemo128.onnx",
            ModelFile::Vocab => "vocab.txt",
            ModelFile::EncoderInt8 => "encoder-model.int8.onnx",
            ModelFile::DecoderJointInt8 => "decoder_joint-model.int8.onnx",
            ModelFile::Encoder => "encoder-model.onnx",
            ModelFile::EncoderData => "encoder-model.onnx.data",
            ModelFile::DecoderJoint => "decoder_joint-model.onnx",
        }
    }
}

/// Where the three model graphs lie.
pub struct ModelPaths<P> {
    pub preprocessor: P,
    pub encoder: P,
    pub decoder_joint: P,
}

/// The encoder of the variant: quantized for the CPU, full precision for
/// the GPU.
pub open spec fn encoder_file(int8: bool) -> ModelFile {
    if int8 {
        ModelFile::EncoderInt8
    } else {
        ModelFile::Encoder
    }
}

/// The decoder and joint network of the variant.
pub open spec fn decoder_joint_file(int8: bool) -> ModelFile {
    if int8 {
        ModelFile::DecoderJointInt8
    } else {
        ModelFile::DecoderJoint
    }
}

/// Whether `fetch(int8, ..)` asks for `f`.
pub open spec fn wanted(int8: bool, f: ModelFile) -> bool {
    ||| f == ModelFile::Preprocessor
    ||| f == ModelFile::Vocab
    ||| f == encoder_file(int8)
    ||| f == decoder_joint_file(int8)
    ||| (!int8 && f == ModelFile::EncoderData)
}

/// Fetch just the small files, the preprocessor and the vocabulary, and
/// return where they lie, in that order. The first failure is returned.
pub fn fetch_small<P, E, F: Fn(ModelFile) -> Result<P, E>>(get: &F) -> (r: Result<(P, P), E>)
    requires
        forall|f: ModelFile| get.requires((f,)),
    ensures
        match r {
            Ok((pre, vocab)) => get.ensures((ModelFile::Preprocessor,), Ok::<P, E>(pre))
                && get.ensures((ModelFile::Vocab,), Ok::<P, E>(vocab)),
            Err(e) => get.ensures((ModelFile::Preprocessor,), Err::<P, E>(e))
                || get.ensures((ModelFile::Vocab,), Err::<P, E>(e)),
        },
{
    let preprocessor = match get(ModelFile::Preprocessor) {
        Ok(p) => p,
        Err(e) => return Err(e),
    };
    let vocab = match get(ModelFile::Vocab) {
        Ok(p) => p,
        Err(e) => return Err(e),
    };
    Ok((preprocessor, vocab))
}

/// Fetch everything: the small files, then the quantized variant when
/// `int8` is set (for the CPU), else the full-precision one with the
/// encoder's weight data (for the GPU). The first failure is returned.
pub fn fetch<P, E, F: Fn(ModelFile) -> Result<P, E>>(int8: bool, get: &F) -> (r: Result<ModelPaths<P>, E>)
    requires
        forall|f: ModelFile| get.requires((f,)),
    ensures
        match r {
            Ok(paths) => {
                &&& get.ensures((ModelFile::Preprocessor,), Ok::<P, E>(paths.preprocessor))
                &&& get.ensures((encoder_file(int8),), Ok::<P, E>(paths.encoder))
                &&& get.ensures((decoder_joint_file(int8),), Ok::<P, E>(paths.decoder_joint))
                &&& exists|v: P| get.ensures((ModelFile::Vocab,), Ok::<P, E>(v))
                &&& !int8 ==> exists|d: P| get.ensures((ModelFile::EncoderData,), Ok::<P, E>(d))
            },
            Err(e) => exists|f: ModelFile| wanted(int8, f) && get.ensures((f,), Err::<P, E>(e)),
        },
{
    let (preprocessor, _vocab) = match fetch_small(get) {
        Ok(pair) => pair,
        Err(e) => {
            assert(wanted(int8, ModelFile::Preprocessor) && wanted(int8, ModelFile::Vocab));
            return Err(e);
        },
    };
    if int8 {
        let encoder = match get(ModelFile::EncoderInt8) {
            Ok(p) => p,
            Err(e) => {
                assert(wanted(int8, ModelFile::EncoderInt8));
                return Err(e);
            },
        };
        let decoder_joint = match get(ModelFile::DecoderJointInt8) {
            Ok(p) => p,
            Err(e) => {
                assert(wanted(int8, ModelFile::DecoderJointInt8));
                return Err(e);
            },
        };
        Ok(ModelPaths { preprocessor, encoder, decoder_joint })
    } else {
        let encoder = match get(ModelFile::Encoder) {
            Ok(p) => p,
            Err(e) => {
                assert(wanted(int8, ModelFile::Encoder));
                return Err(e);
            },
        };
        let _data = match get(ModelFile::EncoderData) {
            Ok(p) => p,
            Err(e) => {
                assert(wanted(int8, ModelFile::EncoderData));
                return Err(e);
            },
        };
        let decoder_joint = match get(ModelFile::DecoderJoint) {
            Ok(p) => p,
            Err(e) => {
                assert(wanted(int8, ModelFile::DecoderJoint));
                return Err(e);
            },
        };
        Ok(ModelPaths { preprocessor, encoder, decoder_joint })
    }
}

} // verus!
