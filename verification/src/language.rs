//! The languages the recognizer can be asked for, with the short codes the
//! decoder understands.

use vstd::prelude::*;

use crate::error::CoreError;
use crate::events::spec_lookup;
use crate::json::{parse_json_object, spec_parse_object, JsonValue, SpecJsonValue};

verus! {

/// A language selectable for transcription; the first choice asks the model
/// to detect the language itself.
#[derive(Debug, Clone, Copy, PartialEq, Eq, PartialOrd, Ord, Structural)]
pub enum Language {
    Auto,
    English,
    Chinese,
    German,
    Spanish,
    Russian,
    Korean,
    French,
    Japanese,
    Portuguese,
    Turkish,
    Polish,
    Catalan,
    Dutch,
    Arabic,
    Swedish,
    Italian,
    Indonesian,
    Hindi,
    Finnish,
    Vietnamese,
    Hebrew,
    Ukrainian,
    Greek,
    Malay,
    Czech,
    Romanian,
    Danish,
    Hungarian,
    Tamil,
    Norwegian,
    Thai,
    Urdu,
    Croatian,
    Bulgarian,
    Lithuanian,
    Latin,
    Maori,
    Malayalam,
    Welsh,
    Slovak,
    Telugu,
    Persian,
    Latvian,
    Bengali,
    Serbian,
    Azerbaijani,
    Slovenian,
    Kannada,
    Estonian,
    Macedonian,
    Breton,
    Basque,
    Icelandic,
    Armenian,
    Nepali,
    Mongolian,
    Bosnian,
    Kazakh,
    Albanian,
    Swahili,
    Galician,
    Marathi,
    Punjabi,
    Sinhala,
    Khmer,
    Shona,
    Yoruba,
    Somali,
    Afrikaans,
    Occitan,
    Georgian,
    Belarusian,
    Tajik,
    Sindhi,
    Gujarati,
    Amharic,
    Yiddish,
    Lao,
    Uzbek,
    Faroese,
    HaitianCreole,
    Pashto,
    Turkmen,
    Nynorsk,
    Maltese,
    Sanskrit,
    Luxembourgish,
    Myanmar,
    Tibetan,
    Tagalog,
    Malagasy,
    Assamese,
    Tatar,
    Hawaiian,
    Lingala,
    Hausa,
    Bashkir,
    Javanese,
    Sundanese,
}

impl Language {
    /// The short code of the language.
    pub open spec fn code_spec(&self) -> Seq<char> {
        match self {
            Language::Auto => "auto"@,
            Language::English => "en"@,
            Language::Chinese => "zh"@,
            Language::German => "de"@,
            Language::Spanish => "es"@,
            Language::Russian => "ru"@,
            Language::Korean => "ko"@,
            Language::French => "fr"@,
            Language::Japanese => "ja"@,
            Language::Portuguese => "pt"@,
            Language::Turkish => "tr"@,
            Language::Polish => "pl"@,
            Language::Catalan => "ca"@,
            Language::Dutch => "nl"@,
            Language::Arabic => "ar"@,
            Language::Swedish => "sv"@,
            Language::Italian => "it"@,
            Language::Indonesian => "id"@,
            Language::Hindi => "hi"@,
            Language::Finnish => "fi"@,
            Language::Vietnamese => "vi"@,
            Language::Hebrew => "he"@,
            Language::Ukrainian => "uk"@,
            Language::Greek => "el"@,
            Language::Malay => "ms"@,
            Language::Czech => "cs"@,
            Language::Romanian => "ro"@,
            Language::Danish => "da"@,
            Language::Hungarian => "hu"@,
            Language::Tamil => "ta"@,
            Language::Norwegian => "no"@,
            Language::Thai => "th"@,
            Language::Urdu => "ur"@,
            Language::Croatian => "hr"@,
            Language::Bulgarian => "bg"@,
            Language::Lithuanian => "lt"@,
            Language::Latin => "la"@,
            Language::Maori => "mi"@,
            Language::Malayalam => "ml"@,
            Language::Welsh => "cy"@,
            Language::Slovak => "sk"@,
            Language::Telugu => "te"@,
            Language::Persian => "fa"@,
            Language::Latvian => "lv"@,
            Language::Bengali => "bn"@,
            Language::Serbian => "sr"@,
            Language::Azerbaijani => "az"@,
            Language::Slovenian => "sl"@,
            Language::Kannada => "kn"@,
            Language::Estonian => "et"@,
            Language::Macedonian => "mk"@,
            Language::Breton => "br"@,
            Language::Basque => "eu"@,
            Language::Icelandic => "is"@,
            Language::Armenian => "hy"@,
            Language::Nepali => "ne"@,
            Language::Mongolian => "mn"@,
            Language::Bosnian => "bs"@,
            Language::Kazakh => "kk"@,
            Language::Albanian => "sq"@,
            Language::Swahili => "sw"@,
            Language::Galician => "gl"@,
            Language::Marathi => "mr"@,
            Language::Punjabi => "pa"@,
            Language::Sinhala => "si"@,
            Language::Khmer => "km"@,
            Language::Shona => "sn"@,
            Language::Yoruba => "yo"@,
            Language::Somali => "so"@,
            Language::Afrikaans => "af"@,
            Language::Occitan => "oc"@,
            Language::Georgian => "ka"@,
            Language::Belarusian => "be"@,
            Language::Tajik => "tg"@,
            Language::Sindhi => "sd"@,
            Language::Gujarati => "gu"@,
            Language::Amharic => "am"@,
            Language::Yiddish => "yi"@,
            Language::Lao => "lo"@,
            Language::Uzbek => "uz"@,
            Language::Faroese => "fo"@,
            Language::HaitianCreole => "ht"@,
            Language::Pashto => "ps"@,
            Language::Turkmen => "tk"@,
            Language::Nynorsk => "nn"@,
            Language::Maltese => "mt"@,
            Language::Sanskrit => "sa"@,
            Language::Luxembourgish => "lb"@,
            Language::Myanmar => "my"@,
            Language::Tibetan => "bo"@,
            Language::Tagalog => "tl"@,
            Language::Malagasy => "mg"@,
            Language::Assamese => "as"@,
            Language::Tatar => "tt"@,
            Language::Hawaiian => "haw"@,
            Language::Lingala => "ln"@,
            Language::Hausa => "ha"@,
            Language::Bashkir => "ba"@,
            Language::Javanese => "jw"@,
            Language::Sundanese => "su"@,
        }
    }

    /// The short code of the language, as the decoder expects it.
    pub fn code(&self) -> (r: String)
        ensures
            r@ == self.code_spec(),
    {
        match self {
            Language::Auto => String::from_str("auto"),
            Language::English => String::from_str("en"),
            Language::Chinese => String::from_str("zh"),
            Language::German => String::from_str("de"),
            Language::Spanish => String::from_str("es"),
            Language::Russian => String::from_str("ru"),
            Language::Korean => String::from_str("ko"),
            Language::French => String::from_str("fr"),
            Language::Japanese => String::from_str("ja"),
            Language::Portuguese => String::from_str("pt"),
            Language::Turkish => String::from_str("tr"),
            Language::Polish => String::from_str("pl"),
            Language::Catalan => String::from_str("ca"),
            Language::Dutch => String::from_str("nl"),
            Language::Arabic => String::from_str("ar"),
            Language::Swedish => String::from_str("sv"),
            Language::Italian => String::from_str("it"),
            Language::Indonesian => String::from_str("id"),
            Language::Hindi => String::from_str("hi"),
            Language::Finnish => String::from_str("fi"),
            Language::Vietnamese => String::from_str("vi"),
            Language::Hebrew => String::from_str("he"),
            Language::Ukrainian => String::from_str("uk"),
            Language::Greek => String::from_str("el"),
            Language::Malay => String::from_str("ms"),
            Language::Czech => String::from_str("cs"),
            Language::Romanian => String::from_str("ro"),
            Language::Danish => String::from_str("da"),
            Language::Hungarian => String::from_str("hu"),
            Language::Tamil => String::from_str("ta"),
            Language::Norwegian => String::from_str("no"),
            Language::Thai => String::from_str("th"),
            Language::Urdu => String::from_str("ur"),
            Language::Croatian => String::from_str("hr"),
            Language::Bulgarian => String::from_str("bg"),
            Language::Lithuanian => String::from_str("lt"),
            Language::Latin => String::from_str("la"),
            Language::Maori => String::from_str("mi"),
            Language::Malayalam => String::from_str("ml"),
            Language::Welsh => String::from_str("cy"),
            Language::Slovak => String::from_str("sk"),
            Language::Telugu => String::from_str("te"),
            Language::Persian => String::from_str("fa"),
            Language::Latvian => String::from_str("lv"),
            Language::Bengali => String::from_str("bn"),
            Language::Serbian => String::from_str("sr"),
            Language::Azerbaijani => String::from_str("az"),
            Language::Slovenian => String::from_str("sl"),
            Language::Kannada => String::from_str("kn"),
            Language::Estonian => String::from_str("et"),
            Language::Macedonian => String::from_str("mk"),
            Language::Breton => String::from_str("br"),
            Language::Basque => String::from_str("eu"),
            Language::Icelandic => String::from_str("is"),
            Language::Armenian => String::from_str("hy"),
            Language::Nepali => String::from_str("ne"),
            Language::Mongolian => String::from_str("mn"),
            Language::Bosnian => String::from_str("bs"),
            Language::Kazakh => String::from_str("kk"),
            Language::Albanian => String::from_str("sq"),
            Language::Swahili => String::from_str("sw"),
            Language::Galician => String::from_str("gl"),
            Language::Marathi => String::from_str("mr"),
            Language::Punjabi => String::from_str("pa"),
            Language::Sinhala => String::from_str("si"),
            Language::Khmer => String::from_str("km"),
            Language::Shona => String::from_str("sn"),
            Language::Yoruba => String::from_str("yo"),
            Language::Somali => String::from_str("so"),
            Language::Afrikaans => String::from_str("af"),
            Language::Occitan => String::from_str("oc"),
            Language::Georgian => String::from_str("ka"),
            Language::Belarusian => String::from_str("be"),
            Language::Tajik => String::from_str("tg"),
            Language::Sindhi => String::from_str("sd"),
            Language::Gujarati => String::from_str("gu"),
            Language::Amharic => String::from_str("am"),
            Language::Yiddish => String::from_str("yi"),
            Language::Lao => String::from_str("lo"),
            Language::Uzbek => String::from_str("uz"),
            Language::Faroese => String::from_str("fo"),
            Language::HaitianCreole => String::from_str("ht"),
            Language::Pashto => String::from_str("ps"),
            Language::Turkmen => String::from_str("tk"),
            Language::Nynorsk => String::from_str("nn"),
            Language::Maltese => String::from_str("mt"),
            Language::Sanskrit => String::from_str("sa"),
            Language::Luxembourgish => String::from_str("lb"),
            Language::Myanmar => String::from_str("my"),
            Language::Tibetan => String::from_str("bo"),
            Language::Tagalog => String::from_str("tl"),
            Language::Malagasy => String::from_str("mg"),
            Language::Assamese => String::from_str("as"),
            Language::Tatar => String::from_str("tt"),
            Language::Hawaiian => String::from_str("haw"),
            Language::Lingala => String::from_str("ln"),
            Language::Hausa => String::from_str("ha"),
            Language::Bashkir => String::from_str("ba"),
            Language::Javanese => String::from_str("jw"),
            Language::Sundanese => String::from_str("su"),
        }
    }
}


/// Maps a human-readable language name to its short code using a flat
/// name-to-code record (the shipped language list). An asset that is not a
/// flat record is a protocol error; a name the record does not know, or
/// maps to anything but text, is a configuration error.
pub fn language_name_to_whisper_lang(asset_json: &str, name: &str) -> (r: Result<
    String,
    CoreError,
>)
    ensures
        spec_parse_object(asset_json@) is None ==> (r matches Err(CoreError::ProtocolError(m)) && m@
            == "language list is not a flat record"@),
        spec_parse_object(asset_json@) matches Some(ms) ==> (match spec_lookup(ms, name@) {
            Some(SpecJsonValue::Text(code)) => r matches Ok(c) && c@ == code,
            _ => r matches Err(CoreError::ConfigError(m)) && m@ == "unknown language name"@,
        }),
{
    let ms = match parse_json_object(asset_json) {
        Some(ms) => ms,
        None => {
            return Err(
                CoreError::ProtocolError(String::from_str("language list is not a flat record")),
            );
        },
    };
    match crate::events::lookup(&ms, name) {
        Some(ix) => match &ms[ix].value {
            JsonValue::Text(code) => Ok(code.clone()),
            _ => Err(CoreError::ConfigError(String::from_str("unknown language name"))),
        },
        None => Err(CoreError::ConfigError(String::from_str("unknown language name"))),
    }
}

} // verus!
