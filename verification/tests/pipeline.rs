use wilds::pipeline::{
    shader_step, source_file_name, ShaderCompileError, ShaderLanguage,
    ShaderStep, SourceLanguage,
};

#[test]
fn pipeline_shader_steps() {
    assert_eq!(shader_step(&[0xff, 0xfe], ShaderLanguage::Spirv), Ok(ShaderStep::Passthrough));
    assert_eq!(
        shader_step(b"void main() {}", ShaderLanguage::Glsl),
        Ok(ShaderStep::Compile(SourceLanguage::Glsl))
    );
    assert_eq!(
        shader_step(b"float4 main() {}", ShaderLanguage::Hlsl),
        Ok(ShaderStep::Compile(SourceLanguage::Hlsl))
    );
    assert_eq!(shader_step(&[0xff, 0xfe], ShaderLanguage::Glsl), Err(ShaderCompileError::NonUtf8));
    assert_eq!(
        shader_step(b"", ShaderLanguage::Other),
        Err(ShaderCompileError::Unsupported { language: ShaderLanguage::Other })
    );
    assert_eq!(source_file_name(SourceLanguage::Glsl), "shader.glsl");
    assert_eq!(source_file_name(SourceLanguage::Hlsl), "shader.hlsl");
}
