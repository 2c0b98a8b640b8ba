//! Tables that translate Windows locale identifiers and build numbers,
//! decoded from remote-desktop client announcements, into readable names.
//!
//! Locale identifiers follow the Windows language-code assignment; unknown
//! identifiers fall back to a caller-supplied default string.

use vstd::prelude::*;

verus! {

use vstd::string::StringExecFns;

/// Locale names for identifiers handled by `lcid_part_0`.
pub open spec fn spec_lcid_part_0(lcid: u32, default: Seq<char>) -> Seq<char> {
    if lcid == 0x0001 {
        "ar"@
    } else     if lcid == 0x0002 {
        "bg"@
    } else     if lcid == 0x0003 {
        "ca"@
    } else     if lcid == 0x0004 {
        "zh-Hans"@
    } else     if lcid == 0x0005 {
        "cs"@
    } else     if lcid == 0x0006 {
        "da"@
    } else     if lcid == 0x0007 {
        "de"@
    } else     if lcid == 0x0008 {
        "el"@
    } else     if lcid == 0x0009 {
        "en"@
    } else     if lcid == 0x000A {
        "es"@
    } else     if lcid == 0x000B {
        "fi"@
    } else     if lcid == 0x000C {
        "fr"@
    } else     if lcid == 0x000D {
        "he"@
    } else     if lcid == 0x000E {
        "hu"@
    } else     if lcid == 0x000F {
        "is"@
    } else     if lcid == 0x0010 {
        "it"@
    } else     if lcid == 0x0011 {
        "ja"@
    } else     if lcid == 0x0012 {
        "ko"@
    } else     if lcid == 0x0013 {
        "nl"@
    } else     if lcid == 0x0014 {
        "no"@
    } else     if lcid == 0x0015 {
        "pl"@
    } else     if lcid == 0x0016 {
        "pt"@
    } else     if lcid == 0x0017 {
        "rm"@
    } else     if lcid == 0x0018 {
        "ro"@
    } else     if lcid == 0x0019 {
        "ru"@
    } else     if lcid == 0x001A {
        "hr"@
    } else     if lcid == 0x001B {
        "sk"@
    } else     if lcid == 0x001C {
        "sq"@
    } else     if lcid == 0x001D {
        "sv"@
    } else     if lcid == 0x001E {
        "th"@
    } else     if lcid == 0x001F {
        "tr"@
    } else     if lcid == 0x0020 {
        "ur"@
    } else     if lcid == 0x0021 {
        "id"@
    } else     if lcid == 0x0022 {
        "uk"@
    } else     if lcid == 0x0023 {
        "be"@
    } else     if lcid == 0x0024 {
        "sl"@
    } else     if lcid == 0x0025 {
        "et"@
    } else     if lcid == 0x0026 {
        "lv"@
    } else     if lcid == 0x0027 {
        "lt"@
    } else     if lcid == 0x0028 {
        "tg"@
    } else     if lcid == 0x0029 {
        "fa"@
    } else     if lcid == 0x002A {
        "vi"@
    } else     if lcid == 0x002B {
        "hy"@
    } else     if lcid == 0x002C {
        "az"@
    } else     if lcid == 0x002D {
        "eu"@
    } else     if lcid == 0x002E {
        "hsb"@
    } else     if lcid == 0x002F {
        "mk"@
    } else     if lcid == 0x0030 {
        "st"@
    } else     if lcid == 0x0031 {
        "ts"@
    } else     if lcid == 0x0032 {
        "tn"@
    } else     if lcid == 0x0033 {
        "ve"@
    } else     if lcid == 0x0034 {
        "xh"@
    } else     if lcid == 0x0035 {
        "zu"@
    } else     if lcid == 0x0036 {
        "af"@
    } else     if lcid == 0x0037 {
        "ka"@
    } else     if lcid == 0x0038 {
        "fo"@
    } else     if lcid == 0x0039 {
        "hi"@
    } else     if lcid == 0x003A {
        "mt"@
    } else     if lcid == 0x003B {
        "se"@
    } else     if lcid == 0x003C {
        "ga"@
    } else     if lcid == 0x003D {
        "yi"@
    } else     if lcid == 0x003E {
        "ms"@
    } else     if lcid == 0x003F {
        "kk"@
    } else     if lcid == 0x0040 {
        "ky"@
    } else {
        default
    }
}

/// Locale names for identifiers handled by `lcid_part_1`.
pub open spec fn spec_lcid_part_1(lcid: u32, default: Seq<char>) -> Seq<char> {
    if lcid == 0x0041 {
        "sw"@
    } else     if lcid == 0x0042 {
        "tk"@
    } else     if lcid == 0x0043 {
        "uz"@
    } else     if lcid == 0x0044 {
        "tt"@
    } else     if lcid == 0x0045 {
        "bn"@
    } else     if lcid == 0x0046 {
        "pa"@
    } else     if lcid == 0x0047 {
        "gu"@
    } else     if lcid == 0x0048 {
        "or"@
    } else     if lcid == 0x0049 {
        "ta"@
    } else     if lcid == 0x004A {
        "te"@
    } else     if lcid == 0x004B {
        "kn"@
    } else     if lcid == 0x004C {
        "ml"@
    } else     if lcid == 0x004D {
        "as"@
    } else     if lcid == 0x004E {
        "mr"@
    } else     if lcid == 0x004F {
        "sa"@
    } else     if lcid == 0x0050 {
        "mn"@
    } else     if lcid == 0x0051 {
        "bo"@
    } else     if lcid == 0x0052 {
        "cy"@
    } else     if lcid == 0x0053 {
        "km"@
    } else     if lcid == 0x0054 {
        "lo"@
    } else     if lcid == 0x0055 {
        "my"@
    } else     if lcid == 0x0056 {
        "gl"@
    } else     if lcid == 0x0057 {
        "kok"@
    } else     if lcid == 0x0058 {
        "mni"@
    } else     if lcid == 0x0059 {
        "sd"@
    } else     if lcid == 0x005A {
        "syr"@
    } else     if lcid == 0x005B {
        "si"@
    } else     if lcid == 0x005C {
        "chr"@
    } else     if lcid == 0x005D {
        "iu"@
    } else     if lcid == 0x005E {
        "am"@
    } else     if lcid == 0x005F {
        "tzm"@
    } else     if lcid == 0x0060 {
        "ks"@
    } else     if lcid == 0x0061 {
        "ne"@
    } else     if lcid == 0x0062 {
        "fy"@
    } else     if lcid == 0x0063 {
        "ps"@
    } else     if lcid == 0x0064 {
        "fil"@
    } else     if lcid == 0x0065 {
        "dv"@
    } else     if lcid == 0x0066 {
        "bin"@
    } else     if lcid == 0x0067 {
        "ff"@
    } else     if lcid == 0x0068 {
        "ha"@
    } else     if lcid == 0x0069 {
        "ibb"@
    } else     if lcid == 0x006A {
        "yo"@
    } else     if lcid == 0x006B {
        "quz"@
    } else     if lcid == 0x006C {
        "nso"@
    } else     if lcid == 0x006D {
        "ba"@
    } else     if lcid == 0x006E {
        "lb"@
    } else     if lcid == 0x006F {
        "kl"@
    } else     if lcid == 0x0070 {
        "ig"@
    } else     if lcid == 0x0071 {
        "kr"@
    } else     if lcid == 0x0072 {
        "om"@
    } else     if lcid == 0x0073 {
        "ti"@
    } else     if lcid == 0x0074 {
        "gn"@
    } else     if lcid == 0x0075 {
        "haw"@
    } else     if lcid == 0x0076 {
        "la"@
    } else     if lcid == 0x0077 {
        "so"@
    } else     if lcid == 0x0078 {
        "ii"@
    } else     if lcid == 0x0079 {
        "pap"@
    } else     if lcid == 0x007A {
        "arn"@
    } else     if lcid == 0x007C {
        "moh"@
    } else     if lcid == 0x007E {
        "br"@
    } else     if lcid == 0x0080 {
        "ug"@
    } else     if lcid == 0x0081 {
        "mi"@
    } else     if lcid == 0x0082 {
        "oc"@
    } else     if lcid == 0x0083 {
        "co"@
    } else {
        default
    }
}

/// Locale names for identifiers handled by `lcid_part_2`.
pub open spec fn spec_lcid_part_2(lcid: u32, default: Seq<char>) -> Seq<char> {
    if lcid == 0x0084 {
        "gsw"@
    } else     if lcid == 0x0085 {
        "sah"@
    } else     if lcid == 0x0086 {
        "qut"@
    } else     if lcid == 0x0087 {
        "rw"@
    } else     if lcid == 0x0088 {
        "wo"@
    } else     if lcid == 0x008C {
        "prs"@
    } else     if lcid == 0x0091 {
        "gd"@
    } else     if lcid == 0x0092 {
        "ku"@
    } else     if lcid == 0x0093 {
        "quc"@
    } else     if lcid == 0x0401 {
        "ar-SA"@
    } else     if lcid == 0x0402 {
        "bg-BG"@
    } else     if lcid == 0x0403 {
        "ca-ES"@
    } else     if lcid == 0x0404 {
        "zh-TW"@
    } else     if lcid == 0x0405 {
        "cs-CZ"@
    } else     if lcid == 0x0406 {
        "da-DK"@
    } else     if lcid == 0x0407 {
        "de-DE"@
    } else     if lcid == 0x0408 {
        "el-GR"@
    } else     if lcid == 0x0409 {
        "en-US"@
    } else     if lcid == 0x040A {
        "es-ES_tradnl"@
    } else     if lcid == 0x040B {
        "fi-FI"@
    } else     if lcid == 0x040C {
        "fr-FR"@
    } else     if lcid == 0x040D {
        "he-IL"@
    } else     if lcid == 0x040E {
        "hu-HU"@
    } else     if lcid == 0x040F {
        "is-IS"@
    } else     if lcid == 0x0410 {
        "it-IT"@
    } else     if lcid == 0x0411 {
        "ja-JP"@
    } else     if lcid == 0x0412 {
        "ko-KR"@
    } else     if lcid == 0x0413 {
        "nl-NL"@
    } else     if lcid == 0x0414 {
        "nb-NO"@
    } else     if lcid == 0x0415 {
        "pl-PL"@
    } else     if lcid == 0x0416 {
        "pt-BR"@
    } else     if lcid == 0x0417 {
        "rm-CH"@
    } else     if lcid == 0x0418 {
        "ro-RO"@
    } else     if lcid == 0x0419 {
        "ru-RU"@
    } else     if lcid == 0x041A {
        "hr-HR"@
    } else     if lcid == 0x041B {
        "sk-SK"@
    } else     if lcid == 0x041C {
        "sq-AL"@
    } else     if lcid == 0x041D {
        "sv-SE"@
    } else     if lcid == 0x041E {
        "th-TH"@
    } else     if lcid == 0x041F {
        "tr-TR"@
    } else     if lcid == 0x0420 {
        "ur-PK"@
    } else     if lcid == 0x0421 {
        "id-ID"@
    } else     if lcid == 0x0422 {
        "uk-UA"@
    } else     if lcid == 0x0423 {
        "be-BY"@
    } else     if lcid == 0x0424 {
        "sl-SI"@
    } else     if lcid == 0x0425 {
        "et-EE"@
    } else     if lcid == 0x0426 {
        "lv-LV"@
    } else     if lcid == 0x0427 {
        "lt-LT"@
    } else     if lcid == 0x0428 {
        "tg-Cyrl-TJ"@
    } else     if lcid == 0x0429 {
        "fa-IR"@
    } else     if lcid == 0x042A {
        "vi-VN"@
    } else     if lcid == 0x042B {
        "hy-AM"@
    } else     if lcid == 0x042C {
        "az-Latn-AZ"@
    } else     if lcid == 0x042D {
        "eu-ES"@
    } else     if lcid == 0x042E {
        "hsb-DE"@
    } else     if lcid == 0x042F {
        "mk-MK"@
    } else     if lcid == 0x0430 {
        "st-ZA"@
    } else     if lcid == 0x0431 {
        "ts-ZA"@
    } else     if lcid == 0x0432 {
        "tn-ZA"@
    } else     if lcid == 0x0433 {
        "ve-ZA"@
    } else     if lcid == 0x0434 {
        "xh-ZA"@
    } else     if lcid == 0x0435 {
        "zu-ZA"@
    } else     if lcid == 0x0436 {
        "af-ZA"@
    } else     if lcid == 0x0437 {
        "ka-GE"@
    } else {
        default
    }
}

/// Locale names for identifiers handled by `lcid_part_3`.
pub open spec fn spec_lcid_part_3(lcid: u32, default: Seq<char>) -> Seq<char> {
    if lcid == 0x0438 {
        "fo-FO"@
    } else     if lcid == 0x0439 {
        "hi-IN"@
    } else     if lcid == 0x043A {
        "mt-MT"@
    } else     if lcid == 0x043B {
        "se-NO"@
    } else     if lcid == 0x043D {
        "yi-Hebr"@
    } else     if lcid == 0x043E {
        "ms-MY"@
    } else     if lcid == 0x043F {
        "kk-KZ"@
    } else     if lcid == 0x0440 {
        "ky-KG"@
    } else     if lcid == 0x0441 {
        "sw-KE"@
    } else     if lcid == 0x0442 {
        "tk-TM"@
    } else     if lcid == 0x0443 {
        "uz-Latn-UZ"@
    } else     if lcid == 0x0444 {
        "tt-RU"@
    } else     if lcid == 0x0445 {
        "bn-IN"@
    } else     if lcid == 0x0446 {
        "pa-IN"@
    } else     if lcid == 0x0447 {
        "gu-IN"@
    } else     if lcid == 0x0448 {
        "or-IN"@
    } else     if lcid == 0x0449 {
        "ta-IN"@
    } else     if lcid == 0x044A {
        "te-IN"@
    } else     if lcid == 0x044B {
        "kn-IN"@
    } else     if lcid == 0x044C {
        "ml-IN"@
    } else     if lcid == 0x044D {
        "as-IN"@
    } else     if lcid == 0x044E {
        "mr-IN"@
    } else     if lcid == 0x044F {
        "sa-IN"@
    } else     if lcid == 0x0450 {
        "mn-MN"@
    } else     if lcid == 0x0451 {
        "bo-CN"@
    } else     if lcid == 0x0452 {
        "cy-GB"@
    } else     if lcid == 0x0453 {
        "km-KH"@
    } else     if lcid == 0x0454 {
        "lo-LA"@
    } else     if lcid == 0x0455 {
        "my-MM"@
    } else     if lcid == 0x0456 {
        "gl-ES"@
    } else     if lcid == 0x0457 {
        "kok-IN"@
    } else     if lcid == 0x0458 {
        "mni-IN"@
    } else     if lcid == 0x0459 {
        "sd-Deva-IN"@
    } else     if lcid == 0x045A {
        "syr-SY"@
    } else     if lcid == 0x045B {
        "si-LK"@
    } else     if lcid == 0x045C {
        "chr-Cher-US"@
    } else     if lcid == 0x045D {
        "iu-Cans-CA"@
    } else     if lcid == 0x045E {
        "am-ET"@
    } else     if lcid == 0x045F {
        "tzm-Arab-MA"@
    } else     if lcid == 0x0460 {
        "ks-Arab"@
    } else     if lcid == 0x0461 {
        "ne-NP"@
    } else     if lcid == 0x0462 {
        "fy-NL"@
    } else     if lcid == 0x0463 {
        "ps-AF"@
    } else     if lcid == 0x0464 {
        "fil-PH"@
    } else     if lcid == 0x0465 {
        "dv-MV"@
    } else     if lcid == 0x0466 {
        "bin-NG"@
    } else     if lcid == 0x0467 {
        "fuv-NG"@
    } else     if lcid == 0x0468 {
        "ha-Latn-NG"@
    } else     if lcid == 0x0469 {
        "ibb-NG"@
    } else     if lcid == 0x046A {
        "yo-NG"@
    } else     if lcid == 0x046B {
        "quz-BO"@
    } else     if lcid == 0x046C {
        "nso-ZA"@
    } else     if lcid == 0x046D {
        "ba-RU"@
    } else     if lcid == 0x046E {
        "lb-LU"@
    } else     if lcid == 0x046F {
        "kl-GL"@
    } else     if lcid == 0x0470 {
        "ig-NG"@
    } else     if lcid == 0x0471 {
        "kr-NG"@
    } else     if lcid == 0x0472 {
        "om-ET"@
    } else     if lcid == 0x0473 {
        "ti-ET"@
    } else     if lcid == 0x0474 {
        "gn-PY"@
    } else     if lcid == 0x0475 {
        "haw-US"@
    } else     if lcid == 0x0476 {
        "la-Latn"@
    } else     if lcid == 0x0477 {
        "so-SO"@
    } else     if lcid == 0x0478 {
        "ii-CN"@
    } else {
        default
    }
}

/// Locale names for identifiers handled by `lcid_part_4`.
pub open spec fn spec_lcid_part_4(lcid: u32, default: Seq<char>) -> Seq<char> {
    if lcid == 0x0479 {
        "pap-029"@
    } else     if lcid == 0x047A {
        "arn-CL"@
    } else     if lcid == 0x047C {
        "moh-CA"@
    } else     if lcid == 0x047E {
        "br-FR"@
    } else     if lcid == 0x0480 {
        "ug-CN"@
    } else     if lcid == 0x0481 {
        "mi-NZ"@
    } else     if lcid == 0x0482 {
        "oc-FR"@
    } else     if lcid == 0x0483 {
        "co-FR"@
    } else     if lcid == 0x0484 {
        "gsw-FR"@
    } else     if lcid == 0x0485 {
        "sah-RU"@
    } else     if lcid == 0x0486 {
        "qut-GT"@
    } else     if lcid == 0x0487 {
        "rw-RW"@
    } else     if lcid == 0x0488 {
        "wo-SN"@
    } else     if lcid == 0x048C {
        "prs-AF"@
    } else     if lcid == 0x048D {
        "plt-MG"@
    } else     if lcid == 0x048E {
        "zh-yue-HK"@
    } else     if lcid == 0x048F {
        "tdd-Tale-CN"@
    } else     if lcid == 0x0490 {
        "khb-Talu-CN"@
    } else     if lcid == 0x0491 {
        "gd-GB"@
    } else     if lcid == 0x0492 {
        "ku-Arab-IQ"@
    } else     if lcid == 0x0493 {
        "quc-CO"@
    } else     if lcid == 0x0501 {
        "qps-ploc"@
    } else     if lcid == 0x05FE {
        "qps-ploca"@
    } else     if lcid == 0x0801 {
        "ar-IQ"@
    } else     if lcid == 0x0803 {
        "ca-ES-valencia"@
    } else     if lcid == 0x0804 {
        "zh-CN"@
    } else     if lcid == 0x0807 {
        "de-CH"@
    } else     if lcid == 0x0809 {
        "en-GB"@
    } else     if lcid == 0x080A {
        "es-MX"@
    } else     if lcid == 0x080C {
        "fr-BE"@
    } else     if lcid == 0x0810 {
        "it-CH"@
    } else     if lcid == 0x0811 {
        "ja-Ploc-JP"@
    } else     if lcid == 0x0813 {
        "nl-BE"@
    } else     if lcid == 0x0814 {
        "nn-NO"@
    } else     if lcid == 0x0816 {
        "pt-PT"@
    } else     if lcid == 0x0818 {
        "ro-MD"@
    } else     if lcid == 0x0819 {
        "ru-MD"@
    } else     if lcid == 0x081A {
        "sr-Latn-CS"@
    } else     if lcid == 0x081D {
        "sv-FI"@
    } else     if lcid == 0x0820 {
        "ur-IN"@
    } else     if lcid == 0x082C {
        "az-Cyrl-AZ"@
    } else     if lcid == 0x082E {
        "dsb-DE"@
    } else     if lcid == 0x0832 {
        "tn-BW"@
    } else     if lcid == 0x083B {
        "se-SE"@
    } else     if lcid == 0x083C {
        "ga-IE"@
    } else     if lcid == 0x083E {
        "ms-BN"@
    } else     if lcid == 0x0843 {
        "uz-Cyrl-UZ"@
    } else     if lcid == 0x0845 {
        "bn-BD"@
    } else     if lcid == 0x0846 {
        "pa-Arab-PK"@
    } else     if lcid == 0x0849 {
        "ta-LK"@
    } else     if lcid == 0x0850 {
        "mn-Mong-CN"@
    } else     if lcid == 0x0851 {
        "bo-BT"@
    } else     if lcid == 0x0859 {
        "sd-Arab-PK"@
    } else     if lcid == 0x085D {
        "iu-Latn-CA"@
    } else     if lcid == 0x085F {
        "tzm-Latn-DZ"@
    } else     if lcid == 0x0860 {
        "ks-Deva"@
    } else     if lcid == 0x0861 {
        "ne-IN"@
    } else     if lcid == 0x0867 {
        "ff-Latn-SN"@
    } else     if lcid == 0x086B {
        "quz-EC"@
    } else     if lcid == 0x0873 {
        "ti-ER"@
    } else     if lcid == 0x09FF {
        "qps-plocm"@
    } else     if lcid == 0x0C01 {
        "ar-EG"@
    } else     if lcid == 0x0C04 {
        "zh-HK"@
    } else     if lcid == 0x0C07 {
        "de-AT"@
    } else {
        default
    }
}

/// Locale names for identifiers handled by `lcid_part_5`.
pub open spec fn spec_lcid_part_5(lcid: u32, default: Seq<char>) -> Seq<char> {
    if lcid == 0x0C09 {
        "en-AU"@
    } else     if lcid == 0x0C0A {
        "es-ES"@
    } else     if lcid == 0x0C0C {
        "fr-CA"@
    } else     if lcid == 0x0C1A {
        "sr-Cyrl-CS"@
    } else     if lcid == 0x0C3B {
        "se-FI"@
    } else     if lcid == 0x0C50 {
        "mn-Mong-MN"@
    } else     if lcid == 0x0C51 {
        "dz-BT"@
    } else     if lcid == 0x0C5F {
        "tmz-MA"@
    } else     if lcid == 0x0C6b {
        "quz-PE"@
    } else     if lcid == 0x1001 {
        "ar-LY"@
    } else     if lcid == 0x1004 {
        "zh-SG"@
    } else     if lcid == 0x1007 {
        "de-LU"@
    } else     if lcid == 0x1009 {
        "en-CA"@
    } else     if lcid == 0x100A {
        "es-GT"@
    } else     if lcid == 0x100C {
        "fr-CH"@
    } else     if lcid == 0x101A {
        "hr-BA"@
    } else     if lcid == 0x103B {
        "smj-NO"@
    } else     if lcid == 0x105F {
        "tzm-Tfng-MA"@
    } else     if lcid == 0x1401 {
        "ar-DZ"@
    } else     if lcid == 0x1404 {
        "zh-MO"@
    } else     if lcid == 0x1407 {
        "de-LI"@
    } else     if lcid == 0x1409 {
        "en-NZ"@
    } else     if lcid == 0x140A {
        "es-CR"@
    } else     if lcid == 0x140C {
        "fr-LU"@
    } else     if lcid == 0x141A {
        "bs-Latn-BA"@
    } else     if lcid == 0x143B {
        "smj-SE"@
    } else     if lcid == 0x1801 {
        "ar-MA"@
    } else     if lcid == 0x1809 {
        "en-IE"@
    } else     if lcid == 0x180A {
        "es-PA"@
    } else     if lcid == 0x180C {
        "fr-MC"@
    } else     if lcid == 0x181A {
        "sr-Latn-BA"@
    } else     if lcid == 0x183B {
        "sma-NO"@
    } else     if lcid == 0x1C01 {
        "ar-TN"@
    } else     if lcid == 0x1C09 {
        "en-ZA"@
    } else     if lcid == 0x1C0A {
        "es-DO"@
    } else     if lcid == 0x1C1A {
        "sr-Cyrl-BA"@
    } else     if lcid == 0x1C3B {
        "sma-SE"@
    } else     if lcid == 0x2001 {
        "ar-OM"@
    } else     if lcid == 0x2009 {
        "en-JM"@
    } else     if lcid == 0x200A {
        "es-VE"@
    } else     if lcid == 0x200C {
        "fr-RE"@
    } else     if lcid == 0x201A {
        "bs-Cyrl-BA"@
    } else     if lcid == 0x203B {
        "sms-FI"@
    } else     if lcid == 0x2401 {
        "ar-YE"@
    } else     if lcid == 0x2409 {
        "en-029"@
    } else     if lcid == 0x240A {
        "es-CO"@
    } else     if lcid == 0x240C {
        "fr-CD"@
    } else     if lcid == 0x241A {
        "sr-Latn-RS"@
    } else     if lcid == 0x243B {
        "smn-FI"@
    } else     if lcid == 0x2801 {
        "ar-SY"@
    } else     if lcid == 0x2809 {
        "en-BZ"@
    } else     if lcid == 0x280A {
        "es-PE"@
    } else     if lcid == 0x280C {
        "fr-SN"@
    } else     if lcid == 0x281A {
        "sr-Cyrl-RS"@
    } else     if lcid == 0x2C01 {
        "ar-JO"@
    } else     if lcid == 0x2C09 {
        "en-TT"@
    } else     if lcid == 0x2C0A {
        "es-AR"@
    } else     if lcid == 0x2C0C {
        "fr-CM"@
    } else     if lcid == 0x2C1A {
        "sr-Latn-ME"@
    } else     if lcid == 0x3001 {
        "ar-LB"@
    } else     if lcid == 0x3009 {
        "en-ZW"@
    } else     if lcid == 0x300A {
        "es-EC"@
    } else     if lcid == 0x300C {
        "fr-CI"@
    } else     if lcid == 0x301A {
        "sr-Cyrl-ME"@
    } else {
        default
    }
}

/// Locale names for identifiers handled by `lcid_part_6`.
pub open spec fn spec_lcid_part_6(lcid: u32, default: Seq<char>) -> Seq<char> {
    if lcid == 0x3401 {
        "ar-KW"@
    } else     if lcid == 0x3409 {
        "en-PH"@
    } else     if lcid == 0x340A {
        "es-CL"@
    } else     if lcid == 0x340C {
        "fr-ML"@
    } else     if lcid == 0x3801 {
        "ar-AE"@
    } else     if lcid == 0x3809 {
        "en-ID"@
    } else     if lcid == 0x380A {
        "es-UY"@
    } else     if lcid == 0x380C {
        "fr-MA"@
    } else     if lcid == 0x3c01 {
        "ar-BH"@
    } else     if lcid == 0x3c09 {
        "en-HK"@
    } else     if lcid == 0x3c0A {
        "es-PY"@
    } else     if lcid == 0x3c0C {
        "fr-HT"@
    } else     if lcid == 0x4001 {
        "ar-QA"@
    } else     if lcid == 0x4009 {
        "en-IN"@
    } else     if lcid == 0x400A {
        "es-BO"@
    } else     if lcid == 0x4401 {
        "ar-Ploc-SA"@
    } else     if lcid == 0x4409 {
        "en-MY"@
    } else     if lcid == 0x440A {
        "es-SV"@
    } else     if lcid == 0x4801 {
        "ar-145"@
    } else     if lcid == 0x4809 {
        "en-SG"@
    } else     if lcid == 0x480A {
        "es-HN"@
    } else     if lcid == 0x4C09 {
        "en-AE"@
    } else     if lcid == 0x4C0A {
        "es-NI"@
    } else     if lcid == 0x5009 {
        "en-BH"@
    } else     if lcid == 0x500A {
        "es-PR"@
    } else     if lcid == 0x5409 {
        "en-EG"@
    } else     if lcid == 0x540A {
        "es-US"@
    } else     if lcid == 0x5809 {
        "en-JO"@
    } else     if lcid == 0x580A {
        "es-419"@
    } else     if lcid == 0x5C09 {
        "en-KW"@
    } else     if lcid == 0x5C0A {
        "es-CU"@
    } else     if lcid == 0x6009 {
        "en-TR"@
    } else     if lcid == 0x6409 {
        "en-YE"@
    } else     if lcid == 0x641A {
        "bs-Cyrl"@
    } else     if lcid == 0x681A {
        "bs-Latn"@
    } else     if lcid == 0x6C1A {
        "sr-Cyrl"@
    } else     if lcid == 0x701A {
        "sr-Latn"@
    } else     if lcid == 0x703B {
        "smn"@
    } else     if lcid == 0x742C {
        "az-Cyrl"@
    } else     if lcid == 0x743B {
        "sms"@
    } else     if lcid == 0x7804 {
        "zh"@
    } else     if lcid == 0x7814 {
        "nn"@
    } else     if lcid == 0x781A {
        "bs"@
    } else     if lcid == 0x782C {
        "az-Latn"@
    } else     if lcid == 0x783B {
        "sma"@
    } else     if lcid == 0x7843 {
        "uz-Cyrl"@
    } else     if lcid == 0x7850 {
        "mn-Cyrl"@
    } else     if lcid == 0x785D {
        "iu-Cans"@
    } else     if lcid == 0x785F {
        "tzm-Tfng"@
    } else     if lcid == 0x7C04 {
        "zh-Hant"@
    } else     if lcid == 0x7C14 {
        "nb"@
    } else     if lcid == 0x7C1A {
        "sr"@
    } else     if lcid == 0x7C28 {
        "tg-Cyrl"@
    } else     if lcid == 0x7C2E {
        "dsb"@
    } else     if lcid == 0x7C3B {
        "smj"@
    } else     if lcid == 0x7C43 {
        "uz-Latn"@
    } else     if lcid == 0x7C46 {
        "pa-Arab"@
    } else     if lcid == 0x7C50 {
        "mn-Mong"@
    } else     if lcid == 0x7C59 {
        "sd-Arab"@
    } else     if lcid == 0x7C5C {
        "chr-Cher"@
    } else     if lcid == 0x7C5D {
        "iu-Latn"@
    } else     if lcid == 0x7C5F {
        "tzm-Latn"@
    } else     if lcid == 0x7C67 {
        "ff-Latn"@
    } else     if lcid == 0x7C68 {
        "ha-Latn"@
    } else {
        default
    }
}

/// Locale names for identifiers handled by `lcid_part_7`.
pub open spec fn spec_lcid_part_7(lcid: u32, default: Seq<char>) -> Seq<char> {
    if lcid == 0x7C92 {
        "ku-Arab"@
    } else {
        default
    }
}

/// The locale name for a Windows locale identifier, or the default when
/// the identifier is not assigned.
pub open spec fn spec_lcid_name(lcid: u32, default: Seq<char>) -> Seq<char> {
    if lcid <= 0x0040 {
        spec_lcid_part_0(lcid, default)
    } else     if lcid <= 0x0083 {
        spec_lcid_part_1(lcid, default)
    } else     if lcid <= 0x0437 {
        spec_lcid_part_2(lcid, default)
    } else     if lcid <= 0x0478 {
        spec_lcid_part_3(lcid, default)
    } else     if lcid <= 0x0C07 {
        spec_lcid_part_4(lcid, default)
    } else     if lcid <= 0x301A {
        spec_lcid_part_5(lcid, default)
    } else     if lcid <= 0x7C68 {
        spec_lcid_part_6(lcid, default)
    } else     if lcid <= 0x7C92 {
        spec_lcid_part_7(lcid, default)
    } else {
        default
    }
}

/// Look up identifiers no greater than 0x0040.
fn lcid_part_0<'a>(lcid: u32, default: &'a str) -> (r: &'a str)
    ensures
        r@ == spec_lcid_part_0(lcid, default@),
{
    match lcid {
        0x0001 => "ar",
        0x0002 => "bg",
        0x0003 => "ca",
        0x0004 => "zh-Hans",
        0x0005 => "cs",
        0x0006 => "da",
        0x0007 => "de",
        0x0008 => "el",
        0x0009 => "en",
        0x000A => "es",
        0x000B => "fi",
        0x000C => "fr",
        0x000D => "he",
        0x000E => "hu",
        0x000F => "is",
        0x0010 => "it",
        0x0011 => "ja",
        0x0012 => "ko",
        0x0013 => "nl",
        0x0014 => "no",
        0x0015 => "pl",
        0x0016 => "pt",
        0x0017 => "rm",
        0x0018 => "ro",
        0x0019 => "ru",
        0x001A => "hr",
        0x001B => "sk",
        0x001C => "sq",
        0x001D => "sv",
        0x001E => "th",
        0x001F => "tr",
        0x0020 => "ur",
        0x0021 => "id",
        0x0022 => "uk",
        0x0023 => "be",
        0x0024 => "sl",
        0x0025 => "et",
        0x0026 => "lv",
        0x0027 => "lt",
        0x0028 => "tg",
        0x0029 => "fa",
        0x002A => "vi",
        0x002B => "hy",
        0x002C => "az",
        0x002D => "eu",
        0x002E => "hsb",
        0x002F => "mk",
        0x0030 => "st",
        0x0031 => "ts",
        0x0032 => "tn",
        0x0033 => "ve",
        0x0034 => "xh",
        0x0035 => "zu",
        0x0036 => "af",
        0x0037 => "ka",
        0x0038 => "fo",
        0x0039 => "hi",
        0x003A => "mt",
        0x003B => "se",
        0x003C => "ga",
        0x003D => "yi",
        0x003E => "ms",
        0x003F => "kk",
        0x0040 => "ky",
        _ => default,
    }
}

/// Look up identifiers no greater than 0x0083.
fn lcid_part_1<'a>(lcid: u32, default: &'a str) -> (r: &'a str)
    ensures
        r@ == spec_lcid_part_1(lcid, default@),
{
    match lcid {
        0x0041 => "sw",
        0x0042 => "tk",
        0x0043 => "uz",
        0x0044 => "tt",
        0x0045 => "bn",
        0x0046 => "pa",
        0x0047 => "gu",
        0x0048 => "or",
        0x0049 => "ta",
        0x004A => "te",
        0x004B => "kn",
        0x004C => "ml",
        0x004D => "as",
        0x004E => "mr",
        0x004F => "sa",
        0x0050 => "mn",
        0x0051 => "bo",
        0x0052 => "cy",
        0x0053 => "km",
        0x0054 => "lo",
        0x0055 => "my",
        0x0056 => "gl",
        0x0057 => "kok",
        0x0058 => "mni",
        0x0059 => "sd",
        0x005A => "syr",
        0x005B => "si",
        0x005C => "chr",
        0x005D => "iu",
        0x005E => "am",
        0x005F => "tzm",
        0x0060 => "ks",
        0x0061 => "ne",
        0x0062 => "fy",
        0x0063 => "ps",
        0x0064 => "fil",
        0x0065 => "dv",
        0x0066 => "bin",
        0x0067 => "ff",
        0x0068 => "ha",
        0x0069 => "ibb",
        0x006A => "yo",
        0x006B => "quz",
        0x006C => "nso",
        0x006D => "ba",
        0x006E => "lb",
        0x006F => "kl",
        0x0070 => "ig",
        0x0071 => "kr",
        0x0072 => "om",
        0x0073 => "ti",
        0x0074 => "gn",
        0x0075 => "haw",
        0x0076 => "la",
        0x0077 => "so",
        0x0078 => "ii",
        0x0079 => "pap",
        0x007A => "arn",
        0x007C => "moh",
        0x007E => "br",
        0x0080 => "ug",
        0x0081 => "mi",
        0x0082 => "oc",
        0x0083 => "co",
        _ => default,
    }
}

/// Look up identifiers no greater than 0x0437.
fn lcid_part_2<'a>(lcid: u32, default: &'a str) -> (r: &'a str)
    ensures
        r@ == spec_lcid_part_2(lcid, default@),
{
    match lcid {
        0x0084 => "gsw",
        0x0085 => "sah",
        0x0086 => "qut",
        0x0087 => "rw",
        0x0088 => "wo",
        0x008C => "prs",
        0x0091 => "gd",
        0x0092 => "ku",
        0x0093 => "quc",
        0x0401 => "ar-SA",
        0x0402 => "bg-BG",
        0x0403 => "ca-ES",
        0x0404 => "zh-TW",
        0x0405 => "cs-CZ",
        0x0406 => "da-DK",
        0x0407 => "de-DE",
        0x0408 => "el-GR",
        0x0409 => "en-US",
        0x040A => "es-ES_tradnl",
        0x040B => "fi-FI",
        0x040C => "fr-FR",
        0x040D => "he-IL",
        0x040E => "hu-HU",
        0x040F => "is-IS",
        0x0410 => "it-IT",
        0x0411 => "ja-JP",
        0x0412 => "ko-KR",
        0x0413 => "nl-NL",
        0x0414 => "nb-NO",
        0x0415 => "pl-PL",
        0x0416 => "pt-BR",
        0x0417 => "rm-CH",
        0x0418 => "ro-RO",
        0x0419 => "ru-RU",
        0x041A => "hr-HR",
        0x041B => "sk-SK",
        0x041C => "sq-AL",
        0x041D => "sv-SE",
        0x041E => "th-TH",
        0x041F => "tr-TR",
        0x0420 => "ur-PK",
        0x0421 => "id-ID",
        0x0422 => "uk-UA",
        0x0423 => "be-BY",
        0x0424 => "sl-SI",
        0x0425 => "et-EE",
        0x0426 => "lv-LV",
        0x0427 => "lt-LT",
        0x0428 => "tg-Cyrl-TJ",
        0x0429 => "fa-IR",
        0x042A => "vi-VN",
        0x042B => "hy-AM",
        0x042C => "az-Latn-AZ",
        0x042D => "eu-ES",
        0x042E => "hsb-DE",
        0x042F => "mk-MK",
        0x0430 => "st-ZA",
        0x0431 => "ts-ZA",
        0x0432 => "tn-ZA",
        0x0433 => "ve-ZA",
        0x0434 => "xh-ZA",
        0x0435 => "zu-ZA",
        0x0436 => "af-ZA",
        0x0437 => "ka-GE",
        _ => default,
    }
}

/// Look up identifiers no greater than 0x0478.
fn lcid_part_3<'a>(lcid: u32, default: &'a str) -> (r: &'a str)
    ensures
        r@ == spec_lcid_part_3(lcid, default@),
{
    match lcid {
        0x0438 => "fo-FO",
        0x0439 => "hi-IN",
        0x043A => "mt-MT",
        0x043B => "se-NO",
        0x043D => "yi-Hebr",
        0x043E => "ms-MY",
        0x043F => "kk-KZ",
        0x0440 => "ky-KG",
        0x0441 => "sw-KE",
        0x0442 => "tk-TM",
        0x0443 => "uz-Latn-UZ",
        0x0444 => "tt-RU",
        0x0445 => "bn-IN",
        0x0446 => "pa-IN",
        0x0447 => "gu-IN",
        0x0448 => "or-IN",
        0x0449 => "ta-IN",
        0x044A => "te-IN",
        0x044B => "kn-IN",
        0x044C => "ml-IN",
        0x044D => "as-IN",
        0x044E => "mr-IN",
        0x044F => "sa-IN",
        0x0450 => "mn-MN",
        0x0451 => "bo-CN",
        0x0452 => "cy-GB",
        0x0453 => "km-KH",
        0x0454 => "lo-LA",
        0x0455 => "my-MM",
        0x0456 => "gl-ES",
        0x0457 => "kok-IN",
        0x0458 => "mni-IN",
        0x0459 => "sd-Deva-IN",
        0x045A => "syr-SY",
        0x045B => "si-LK",
        0x045C => "chr-Cher-US",
        0x045D => "iu-Cans-CA",
        0x045E => "am-ET",
        0x045F => "tzm-Arab-MA",
        0x0460 => "ks-Arab",
        0x0461 => "ne-NP",
        0x0462 => "fy-NL",
        0x0463 => "ps-AF",
        0x0464 => "fil-PH",
        0x0465 => "dv-MV",
        0x0466 => "bin-NG",
        0x0467 => "fuv-NG",
        0x0468 => "ha-Latn-NG",
        0x0469 => "ibb-NG",
        0x046A => "yo-NG",
        0x046B => "quz-BO",
        0x046C => "nso-ZA",
        0x046D => "ba-RU",
        0x046E => "lb-LU",
        0x046F => "kl-GL",
        0x0470 => "ig-NG",
        0x0471 => "kr-NG",
        0x0472 => "om-ET",
        0x0473 => "ti-ET",
        0x0474 => "gn-PY",
        0x0475 => "haw-US",
        0x0476 => "la-Latn",
        0x0477 => "so-SO",
        0x0478 => "ii-CN",
        _ => default,
    }
}

/// Look up identifiers no greater than 0x0C07.
fn lcid_part_4<'a>(lcid: u32, default: &'a str) -> (r: &'a str)
    ensures
        r@ == spec_lcid_part_4(lcid, default@),
{
    match lcid {
        0x0479 => "pap-029",
        0x047A => "arn-CL",
        0x047C => "moh-CA",
        0x047E => "br-FR",
        0x0480 => "ug-CN",
        0x0481 => "mi-NZ",
        0x0482 => "oc-FR",
        0x0483 => "co-FR",
        0x0484 => "gsw-FR",
        0x0485 => "sah-RU",
        0x0486 => "qut-GT",
        0x0487 => "rw-RW",
        0x0488 => "wo-SN",
        0x048C => "prs-AF",
        0x048D => "plt-MG",
        0x048E => "zh-yue-HK",
        0x048F => "tdd-Tale-CN",
        0x0490 => "khb-Talu-CN",
        0x0491 => "gd-GB",
        0x0492 => "ku-Arab-IQ",
        0x0493 => "quc-CO",
        0x0501 => "qps-ploc",
        0x05FE => "qps-ploca",
        0x0801 => "ar-IQ",
        0x0803 => "ca-ES-valencia",
        0x0804 => "zh-CN",
        0x0807 => "de-CH",
        0x0809 => "en-GB",
        0x080A => "es-MX",
        0x080C => "fr-BE",
        0x0810 => "it-CH",
        0x0811 => "ja-Ploc-JP",
        0x0813 => "nl-BE",
        0x0814 => "nn-NO",
        0x0816 => "pt-PT",
        0x0818 => "ro-MD",
        0x0819 => "ru-MD",
        0x081A => "sr-Latn-CS",
        0x081D => "sv-FI",
        0x0820 => "ur-IN",
        0x082C => "az-Cyrl-AZ",
        0x082E => "dsb-DE",
        0x0832 => "tn-BW",
        0x083B => "se-SE",
        0x083C => "ga-IE",
        0x083E => "ms-BN",
        0x0843 => "uz-Cyrl-UZ",
        0x0845 => "bn-BD",
        0x0846 => "pa-Arab-PK",
        0x0849 => "ta-LK",
        0x0850 => "mn-Mong-CN",
        0x0851 => "bo-BT",
        0x0859 => "sd-Arab-PK",
        0x085D => "iu-Latn-CA",
        0x085F => "tzm-Latn-DZ",
        0x0860 => "ks-Deva",
        0x0861 => "ne-IN",
        0x0867 => "ff-Latn-SN",
        0x086B => "quz-EC",
        0x0873 => "ti-ER",
        0x09FF => "qps-plocm",
        0x0C01 => "ar-EG",
        0x0C04 => "zh-HK",
        0x0C07 => "de-AT",
        _ => default,
    }
}

/// Look up identifiers no greater than 0x301A.
fn lcid_part_5<'a>(lcid: u32, default: &'a str) -> (r: &'a str)
    ensures
        r@ == spec_lcid_part_5(lcid, default@),
{
    match lcid {
        0x0C09 => "en-AU",
        0x0C0A => "es-ES",
        0x0C0C => "fr-CA",
        0x0C1A => "sr-Cyrl-CS",
        0x0C3B => "se-FI",
        0x0C50 => "mn-Mong-MN",
        0x0C51 => "dz-BT",
        0x0C5F => "tmz-MA",
        0x0C6b => "quz-PE",
        0x1001 => "ar-LY",
        0x1004 => "zh-SG",
        0x1007 => "de-LU",
        0x1009 => "en-CA",
        0x100A => "es-GT",
        0x100C => "fr-CH",
        0x101A => "hr-BA",
        0x103B => "smj-NO",
        0x105F => "tzm-Tfng-MA",
        0x1401 => "ar-DZ",
        0x1404 => "zh-MO",
        0x1407 => "de-LI",
        0x1409 => "en-NZ",
        0x140A => "es-CR",
        0x140C => "fr-LU",
        0x141A => "bs-Latn-BA",
        0x143B => "smj-SE",
        0x1801 => "ar-MA",
        0x1809 => "en-IE",
        0x180A => "es-PA",
        0x180C => "fr-MC",
        0x181A => "sr-Latn-BA",
        0x183B => "sma-NO",
        0x1C01 => "ar-TN",
        0x1C09 => "en-ZA",
        0x1C0A => "es-DO",
        0x1C1A => "sr-Cyrl-BA",
        0x1C3B => "sma-SE",
        0x2001 => "ar-OM",
        0x2009 => "en-JM",
        0x200A => "es-VE",
        0x200C => "fr-RE",
        0x201A => "bs-Cyrl-BA",
        0x203B => "sms-FI",
        0x2401 => "ar-YE",
        0x2409 => "en-029",
        0x240A => "es-CO",
        0x240C => "fr-CD",
        0x241A => "sr-Latn-RS",
        0x243B => "smn-FI",
        0x2801 => "ar-SY",
        0x2809 => "en-BZ",
        0x280A => "es-PE",
        0x280C => "fr-SN",
        0x281A => "sr-Cyrl-RS",
        0x2C01 => "ar-JO",
        0x2C09 => "en-TT",
        0x2C0A => "es-AR",
        0x2C0C => "fr-CM",
        0x2C1A => "sr-Latn-ME",
        0x3001 => "ar-LB",
        0x3009 => "en-ZW",
        0x300A => "es-EC",
        0x300C => "fr-CI",
        0x301A => "sr-Cyrl-ME",
        _ => default,
    }
}

/// Look up identifiers no greater than 0x7C68.
fn lcid_part_6<'a>(lcid: u32, default: &'a str) -> (r: &'a str)
    ensures
        r@ == spec_lcid_part_6(lcid, default@),
{
    match lcid {
        0x3401 => "ar-KW",
        0x3409 => "en-PH",
        0x340A => "es-CL",
        0x340C => "fr-ML",
        0x3801 => "ar-AE",
        0x3809 => "en-ID",
        0x380A => "es-UY",
        0x380C => "fr-MA",
        0x3c01 => "ar-BH",
        0x3c09 => "en-HK",
        0x3c0A => "es-PY",
        0x3c0C => "fr-HT",
        0x4001 => "ar-QA",
        0x4009 => "en-IN",
        0x400A => "es-BO",
        0x4401 => "ar-Ploc-SA",
        0x4409 => "en-MY",
        0x440A => "es-SV",
        0x4801 => "ar-145",
        0x4809 => "en-SG",
        0x480A => "es-HN",
        0x4C09 => "en-AE",
        0x4C0A => "es-NI",
        0x5009 => "en-BH",
        0x500A => "es-PR",
        0x5409 => "en-EG",
        0x540A => "es-US",
        0x5809 => "en-JO",
        0x580A => "es-419",
        0x5C09 => "en-KW",
        0x5C0A => "es-CU",
        0x6009 => "en-TR",
        0x6409 => "en-YE",
        0x641A => "bs-Cyrl",
        0x681A => "bs-Latn",
        0x6C1A => "sr-Cyrl",
        0x701A => "sr-Latn",
        0x703B => "smn",
        0x742C => "az-Cyrl",
        0x743B => "sms",
        0x7804 => "zh",
        0x7814 => "nn",
        0x781A => "bs",
        0x782C => "az-Latn",
        0x783B => "sma",
        0x7843 => "uz-Cyrl",
        0x7850 => "mn-Cyrl",
        0x785D => "iu-Cans",
        0x785F => "tzm-Tfng",
        0x7C04 => "zh-Hant",
        0x7C14 => "nb",
        0x7C1A => "sr",
        0x7C28 => "tg-Cyrl",
        0x7C2E => "dsb",
        0x7C3B => "smj",
        0x7C43 => "uz-Latn",
        0x7C46 => "pa-Arab",
        0x7C50 => "mn-Mong",
        0x7C59 => "sd-Arab",
        0x7C5C => "chr-Cher",
        0x7C5D => "iu-Latn",
        0x7C5F => "tzm-Latn",
        0x7C67 => "ff-Latn",
        0x7C68 => "ha-Latn",
        _ => default,
    }
}

/// Look up identifiers no greater than 0x7C92.
fn lcid_part_7<'a>(lcid: u32, default: &'a str) -> (r: &'a str)
    ensures
        r@ == spec_lcid_part_7(lcid, default@),
{
    match lcid {
        0x7C92 => "ku-Arab",
        _ => default,
    }
}

/// Translate a Windows locale identifier into a locale name, falling back
/// to `default` for identifiers the table does not assign.
pub fn lcid_to_string<'a>(lcid: u32, default: &'a str) -> (r: String)
    ensures
        r@ == spec_lcid_name(lcid, default@),
{
    let s: &str = if lcid <= 0x0040 {
        lcid_part_0(lcid, default)
    } else if lcid <= 0x0083 {
        lcid_part_1(lcid, default)
    } else if lcid <= 0x0437 {
        lcid_part_2(lcid, default)
    } else if lcid <= 0x0478 {
        lcid_part_3(lcid, default)
    } else if lcid <= 0x0C07 {
        lcid_part_4(lcid, default)
    } else if lcid <= 0x301A {
        lcid_part_5(lcid, default)
    } else if lcid <= 0x7C68 {
        lcid_part_6(lcid, default)
    } else if lcid <= 0x7C92 {
        lcid_part_7(lcid, default)
    } else {
        default
    };
    s.to_owned()
}

/// Windows operating system type (build and suffix/pack).
#[derive(Clone, Debug, PartialEq, Eq, Structural)]
pub struct OperatingSystem {
    pub build: Build,
    pub suffix: Suffix,
}

/// Windows releases recognised by their build number.
#[derive(Clone, Copy, Debug, PartialEq, Eq, Structural)]
#[allow(non_camel_case_types)]
pub enum Build {
    Other,
    Win31,
    Win35,
    Win351,
    Win40,
    Win2000,
    WinXP,
    Vista_6000,
    Vista_6001,
    Vista_6002,
    Win7_7600,
    Win7_7601,
    Win8,
    Win81,
    Win10_10240,
    Win10_10586,
    Win10_14393,
    Win10_15063,
    Win10_16299,
    Win10_17134,
    Win10_17763,
    Server2003,
}

/// Service-pack or release-wave suffix of a Windows build.
#[derive(Clone, Copy, Debug, PartialEq, Eq, Structural)]
pub enum Suffix {
    Empty,
    Rtm,
    Sp1,
    Sp2,
    Th1,
    Th2,
    Rs1,
    Rs2,
    Rs3,
    Rs4,
    Rs5,
}

/// The release a build number names, or `Other` when unassigned.
pub open spec fn spec_build_of_number(number: u32) -> Build {
    if number == 528 {
        Build::Win31
    } else if number == 807 {
        Build::Win35
    } else if number == 1057 {
        Build::Win351
    } else if number == 1381 {
        Build::Win40
    } else if number == 2195 {
        Build::Win2000
    } else if number == 2600 {
        Build::WinXP
    } else if number == 6000 {
        Build::Vista_6000
    } else if number == 6001 {
        Build::Vista_6001
    } else if number == 6002 {
        Build::Vista_6002
    } else if number == 7600 {
        Build::Win7_7600
    } else if number == 7601 {
        Build::Win7_7601
    } else if number == 9200 {
        Build::Win8
    } else if number == 9600 {
        Build::Win81
    } else if number == 10240 {
        Build::Win10_10240
    } else if number == 10586 {
        Build::Win10_10586
    } else if number == 14393 {
        Build::Win10_14393
    } else if number == 15063 {
        Build::Win10_15063
    } else if number == 16299 {
        Build::Win10_16299
    } else if number == 17134 {
        Build::Win10_17134
    } else if number == 17763 {
        Build::Win10_17763
    } else if number == 3790 {
        Build::Server2003
    } else {
        Build::Other
    }
}

/// The suffix a build number carries, or `Empty` when none is assigned.
pub open spec fn spec_suffix_of_number(number: u32) -> Suffix {
    if number == 6000 || number == 7600 {
        Suffix::Rtm
    } else if number == 6001 || number == 7601 {
        Suffix::Sp1
    } else if number == 6002 {
        Suffix::Sp2
    } else if number == 10240 {
        Suffix::Th1
    } else if number == 10586 {
        Suffix::Th2
    } else if number == 14393 {
        Suffix::Rs1
    } else if number == 15063 {
        Suffix::Rs2
    } else if number == 16299 {
        Suffix::Rs3
    } else if number == 17134 {
        Suffix::Rs4
    } else if number == 17763 {
        Suffix::Rs5
    } else {
        Suffix::Empty
    }
}

/// Convert a build number into an `OperatingSystem` value.
pub fn build_number_to_os(number: u32) -> (r: OperatingSystem)
    ensures
        r.build == spec_build_of_number(number),
        r.suffix == spec_suffix_of_number(number),
{
    let build = match number {
        528 => Build::Win31,
        807 => Build::Win35,
        1057 => Build::Win351,
        1381 => Build::Win40,
        2195 => Build::Win2000,
        2600 => Build::WinXP,
        6000 => Build::Vista_6000,
        6001 => Build::Vista_6001,
        6002 => Build::Vista_6002,
        7600 => Build::Win7_7600,
        7601 => Build::Win7_7601,
        9200 => Build::Win8,
        9600 => Build::Win81,
        10240 => Build::Win10_10240,
        10586 => Build::Win10_10586,
        14393 => Build::Win10_14393,
        15063 => Build::Win10_15063,
        16299 => Build::Win10_16299,
        17134 => Build::Win10_17134,
        17763 => Build::Win10_17763,
        3790 => Build::Server2003,
        _ => Build::Other,
    };
    let suffix = match number {
        6000 => Suffix::Rtm,
        7600 => Suffix::Rtm,
        6001 => Suffix::Sp1,
        6002 => Suffix::Sp2,
        7601 => Suffix::Sp1,
        10240 => Suffix::Th1,
        10586 => Suffix::Th2,
        14393 => Suffix::Rs1,
        15063 => Suffix::Rs2,
        16299 => Suffix::Rs3,
        17134 => Suffix::Rs4,
        17763 => Suffix::Rs5,
        _ => Suffix::Empty,
    };
    OperatingSystem { build, suffix }
}

/// The base description of a release, or the default for `Other`.
pub open spec fn spec_os_base(build: Build, default: Seq<char>) -> Seq<char> {
    match build {
        Build::Win31 => "Windows NT 3.1"@,
        Build::Win35 => "Windows NT 3.5"@,
        Build::Win351 => "Windows NT 3.51"@,
        Build::Win40 => "Windows NT 4.0"@,
        Build::Win2000 => "Windows 2000"@,
        Build::WinXP => "Windows XP"@,
        Build::Vista_6000 => "Windows Vista"@,
        Build::Vista_6001 => "Windows Vista"@,
        Build::Vista_6002 => "Windows Vista"@,
        Build::Win7_7600 => "Windows 7"@,
        Build::Win7_7601 => "Windows 7"@,
        Build::Win8 => "Windows 8"@,
        Build::Win81 => "Windows 8.1"@,
        Build::Win10_10240 => "Windows 10"@,
        Build::Win10_10586 => "Windows 10"@,
        Build::Win10_14393 => "Windows 10"@,
        Build::Win10_15063 => "Windows 10"@,
        Build::Win10_16299 => "Windows 10"@,
        Build::Win10_17134 => "Windows 10"@,
        Build::Win10_17763 => "Windows 10"@,
        Build::Server2003 => "Windows Server 2003"@,
        Build::Other => default,
    }
}

/// The text a suffix appends to the base description.
pub open spec fn spec_suffix_text(suffix: Suffix) -> Seq<char> {
    match suffix {
        Suffix::Rtm => " RTM"@,
        Suffix::Sp1 => " SP1"@,
        Suffix::Sp2 => " SP2"@,
        Suffix::Th1 => " TH1"@,
        Suffix::Th2 => " TH2"@,
        Suffix::Rs1 => " RS1"@,
        Suffix::Rs2 => " RS2"@,
        Suffix::Rs3 => " RS3"@,
        Suffix::Rs4 => " RS4"@,
        Suffix::Rs5 => " RS5"@,
        Suffix::Empty => ""@,
    }
}

/// Convert an `OperatingSystem` into a string description: the base release
/// name (or the default for an unrecognised build) followed by its suffix.
pub fn os_to_string<'a>(os: &OperatingSystem, default: &'a str) -> (r: String)
    ensures
        r@ == spec_os_base(os.build, default@) + spec_suffix_text(os.suffix),
{
    let s: &str = match os.build {
        Build::Win31 => "Windows NT 3.1",
        Build::Win35 => "Windows NT 3.5",
        Build::Win351 => "Windows NT 3.51",
        Build::Win40 => "Windows NT 4.0",
        Build::Win2000 => "Windows 2000",
        Build::WinXP => "Windows XP",
        Build::Vista_6000 => "Windows Vista",
        Build::Vista_6001 => "Windows Vista",
        Build::Vista_6002 => "Windows Vista",
        Build::Win7_7600 => "Windows 7",
        Build::Win7_7601 => "Windows 7",
        Build::Win8 => "Windows 8",
        Build::Win81 => "Windows 8.1",
        Build::Win10_10240 => "Windows 10",
        Build::Win10_10586 => "Windows 10",
        Build::Win10_14393 => "Windows 10",
        Build::Win10_15063 => "Windows 10",
        Build::Win10_16299 => "Windows 10",
        Build::Win10_17134 => "Windows 10",
        Build::Win10_17763 => "Windows 10",
        Build::Server2003 => "Windows Server 2003",
        Build::Other => default,
    };
    let mut result: String = s.to_owned();
    match os.suffix {
        Suffix::Rtm => result.append(" RTM"),
        Suffix::Sp1 => result.append(" SP1"),
        Suffix::Sp2 => result.append(" SP2"),
        Suffix::Th1 => result.append(" TH1"),
        Suffix::Th2 => result.append(" TH2"),
        Suffix::Rs1 => result.append(" RS1"),
        Suffix::Rs2 => result.append(" RS2"),
        Suffix::Rs3 => result.append(" RS3"),
        Suffix::Rs4 => result.append(" RS4"),
        Suffix::Rs5 => result.append(" RS5"),
        Suffix::Empty => (),
    }
    proof {
        if os.suffix is Empty {
            reveal_strlit("");
            assert(result@ =~= spec_os_base(os.build, default@) + spec_suffix_text(os.suffix));
        }
    }
    result
}


} // verus!
