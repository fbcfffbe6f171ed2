use vstd::prelude::*;

verus! {

/// Identifies a graphics pipeline.
#[derive(Clone, Copy, Debug, PartialEq, Eq, Structural, Hash)]
pub struct GraphicsPipelineId(pub u64);

/// Pipeline that rasterizes the scene.
#[derive(Debug)]
pub struct RasterPipeline {}

/// The default shader entry point.
pub fn entry_main() -> (r: String)
    ensures
        r@ == "main"@,
{
    "main".to_owned()
}

/// Calls `<str as PartialEq>::eq`, which compares the strings' contents.
#[verifier::external_body]
fn str_eq(a: &str, b: &str) -> (r: bool)
    ensures
        r == (a@ == b@),
{
    a == b
}

/// Whether a shader entry point is the default one.
pub fn entry_is_main(entry: &str) -> (r: bool)
    ensures
        r == (entry@ == "main"@),
{
    str_eq(entry, "main")
}


/// Language of shader code.
#[derive(Clone, Copy, Debug, PartialEq, Eq, Structural)]
pub enum ShaderLanguage {
    Glsl,
    Hlsl,
    Spirv,
    /// Any other language a shader description may name.
    Other,
}

/// Source languages the shader compiler takes.
#[derive(Clone, Copy, Debug, PartialEq, Eq, Structural)]
pub enum SourceLanguage {
    Glsl,
    Hlsl,
}

/// What is done with shader code before it is handed to the device.
#[derive(Clone, Copy, Debug, PartialEq, Eq, Structural)]
pub enum ShaderStep {
    /// The code is SPIR-V already and is used as it is.
    Passthrough,
    /// The code is source text to compile to SPIR-V.
    Compile(SourceLanguage),
}

/// Why shader code cannot be prepared.
#[derive(Clone, Copy, Debug, PartialEq, Eq, Structural)]
pub enum ShaderCompileError {
    /// Source code that is not UTF-8.
    NonUtf8,
    Unsupported { language: ShaderLanguage },
}

/// Whether `std::str::from_utf8` accepts `bytes`.
pub uninterp spec fn utf8_valid(bytes: Seq<u8>) -> bool;

/// Calls `std::str::from_utf8` and tells whether it succeeded; the result is
/// named `utf8_valid(bytes@)`.
#[verifier::external_body]
fn is_utf8(bytes: &[u8]) -> (r: bool)
    ensures
        r == utf8_valid(bytes@),
{
    std::str::from_utf8(bytes).is_ok()
}

/// Decides how shader code is prepared: SPIR-V is passed through, GLSL and
/// HLSL source must be UTF-8 and is compiled, other languages are refused.
pub fn shader_step(code: &[u8], language: ShaderLanguage) -> (r: Result<ShaderStep, ShaderCompileError>)
    ensures
        r == (match language {
            ShaderLanguage::Spirv => Ok(ShaderStep::Passthrough),
            ShaderLanguage::Other => Err(ShaderCompileError::Unsupported { language }),
            ShaderLanguage::Glsl => if utf8_valid(code@) {
                Ok(ShaderStep::Compile(SourceLanguage::Glsl))
            } else {
                Err(ShaderCompileError::NonUtf8)
            },
            ShaderLanguage::Hlsl => if utf8_valid(code@) {
                Ok(ShaderStep::Compile(SourceLanguage::Hlsl))
            } else {
                Err(ShaderCompileError::NonUtf8)
            },
        }),
{
    let source = match language {
        ShaderLanguage::Glsl => SourceLanguage::Glsl,
        ShaderLanguage::Hlsl => SourceLanguage::Hlsl,
        ShaderLanguage::Spirv => return Ok(ShaderStep::Passthrough),
        ShaderLanguage::Other => return Err(ShaderCompileError::Unsupported { language }),
    };
    if !is_utf8(code) {
        return Err(ShaderCompileError::NonUtf8);
    }
    Ok(ShaderStep::Compile(source))
}

/// The file name source code is compiled under, from which the compiler
/// infers the language.
pub fn source_file_name(language: SourceLanguage) -> (r: String)
    ensures
        r@ == (match language {
            SourceLanguage::Glsl => "shader.glsl"@,
            SourceLanguage::Hlsl => "shader.hlsl"@,
        }),
{
    match language {
        SourceLanguage::Glsl => "shader.glsl".to_owned(),
        SourceLanguage::Hlsl => "shader.hlsl".to_owned(),
    }
}

} // verus!
