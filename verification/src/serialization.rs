mod default;
mod json;
mod serializer;
mod yaml;

pub use default::{default_decode, default_encode, default_extension, DefaultSerializer};
pub use json::{json_parsed, json_text, JsonSerializer};
pub use serializer::{check_codec_depth, codec_depth_limit, fits_codec_depth, Serializer, SerializerExtensions};
pub use yaml::{yaml_parsed, yaml_text, YamlSerializer};
