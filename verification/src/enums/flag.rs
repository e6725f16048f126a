//! Country flags the avatars endpoint can render.

use vstd::prelude::*;

verus! {

/// Country flags the avatars endpoint can render.
#[derive(Clone, Copy, Debug, PartialEq, Eq, Hash, Structural)]
pub enum Flag {
    Ad,
    Ae,
    Af,
    Ag,
    Ai,
    Al,
    Am,
    Ao,
    Aq,
    Ar,
    As,
    At,
    Au,
    Aw,
    Ax,
    Az,
    Ba,
    Bb,
    Bd,
    Be,
    Bf,
    Bg,
    Bh,
    Bi,
    Bj,
    Bl,
    Bm,
    Bn,
    Bo,
    Bq,
    Br,
    Bs,
    Bt,
    Bv,
    Bw,
    By,
    Bz,
    Ca,
    Cc,
    Cd,
    Cf,
    Cg,
    Ch,
    Ci,
    Ck,
    Cl,
    Cm,
    Cn,
    Co,
    Cr,
    Cu,
    Cv,
    Cw,
    Cx,
    Cy,
    Cz,
    De,
    Dj,
    Dk,
    Dm,
    Do,
    Dz,
    Ec,
    Ee,
    Eg,
    Eh,
    Er,
    Es,
    Et,
    Fi,
    Fj,
    Fk,
    Fm,
    Fo,
    Fr,
    Ga,
    Gb,
    Gd,
    Ge,
    Gf,
    Gg,
    Gh,
    Gi,
    Gl,
    Gm,
    Gn,
    Gp,
    Gq,
    Gr,
    Gs,
    Gt,
    Gu,
    Gw,
    Gy,
    Hk,
    Hm,
    Hn,
    Hr,
    Ht,
    Hu,
    Id,
    Ie,
    Il,
    Im,
    In,
    Io,
    Iq,
    Ir,
    Is,
    It,
    Je,
    Jm,
    Jo,
    Jp,
    Ke,
    Kg,
    Kh,
    Ki,
    Km,
    Kn,
    Kp,
    Kr,
    Kw,
    Ky,
    Kz,
    La,
    Lb,
    Lc,
    Li,
    Lk,
    Lr,
    Ls,
    Lt,
    Lu,
    Lv,
    Ly,
    Ma,
    Mc,
    Md,
    Me,
    Mf,
    Mg,
    Mh,
    Mk,
    Ml,
    Mm,
    Mn,
    Mo,
    Mp,
    Mq,
    Mr,
    Ms,
    Mt,
    Mu,
    Mv,
    Mw,
    Mx,
    My,
    Mz,
    Na,
    Nc,
    Ne,
    Nf,
    Ng,
    Ni,
    Nl,
    No,
    Np,
    Nr,
    Nu,
    Nz,
    Om,
    Pa,
    Pe,
    Pf,
    Pg,
    Ph,
    Pk,
    Pl,
    Pm,
    Pn,
    Pr,
    Ps,
    Pt,
    Pw,
    Py,
    Qa,
    Re,
    Ro,
    Rs,
    Ru,
    Rw,
    Sa,
    Sb,
    Sc,
    Sd,
    Se,
    Sg,
    Sh,
    Si,
    Sj,
    Sk,
    Sl,
    Sm,
    Sn,
    So,
    Sr,
    Ss,
    St,
    Sv,
    Sx,
    Sy,
    Sz,
    Tc,
    Td,
    Tf,
    Tg,
    Th,
    Tj,
    Tk,
    Tl,
    Tm,
    Tn,
    To,
    Tr,
    Tt,
    Tv,
    Tw,
    Tz,
    Ua,
    Ug,
    Um,
    Us,
    Uy,
    Uz,
    Va,
    Vc,
    Ve,
    Vg,
    Vi,
    Vn,
    Vu,
    Wf,
    Ws,
    Ye,
    Yt,
    Za,
    Zm,
    Zw,
}

impl Flag {
    /// The canonical wire string of each variant.
    pub open spec fn spec_str(&self) -> Seq<char> {
        match *self {
            Flag::Ad => "ad"@,
            Flag::Ae => "ae"@,
            Flag::Af => "af"@,
            Flag::Ag => "ag"@,
            Flag::Ai => "ai"@,
            Flag::Al => "al"@,
            Flag::Am => "am"@,
            Flag::Ao => "ao"@,
            Flag::Aq => "aq"@,
            Flag::Ar => "ar"@,
            Flag::As => "as"@,
            Flag::At => "at"@,
            Flag::Au => "au"@,
            Flag::Aw => "aw"@,
            Flag::Ax => "ax"@,
            Flag::Az => "az"@,
            Flag::Ba => "ba"@,
            Flag::Bb => "bb"@,
            Flag::Bd => "bd"@,
            Flag::Be => "be"@,
            Flag::Bf => "bf"@,
            Flag::Bg => "bg"@,
            Flag::Bh => "bh"@,
            Flag::Bi => "bi"@,
            Flag::Bj => "bj"@,
            Flag::Bl => "bl"@,
            Flag::Bm => "bm"@,
            Flag::Bn => "bn"@,
            Flag::Bo => "bo"@,
            Flag::Bq => "bq"@,
            Flag::Br => "br"@,
            Flag::Bs => "bs"@,
            Flag::Bt => "bt"@,
            Flag::Bv => "bv"@,
            Flag::Bw => "bw"@,
            Flag::By => "by"@,
            Flag::Bz => "bz"@,
            Flag::Ca => "ca"@,
            Flag::Cc => "cc"@,
            Flag::Cd => "cd"@,
            Flag::Cf => "cf"@,
            Flag::Cg => "cg"@,
            Flag::Ch => "ch"@,
            Flag::Ci => "ci"@,
            Flag::Ck => "ck"@,
            Flag::Cl => "cl"@,
            Flag::Cm => "cm"@,
            Flag::Cn => "cn"@,
            Flag::Co => "co"@,
            Flag::Cr => "cr"@,
            Flag::Cu => "cu"@,
            Flag::Cv => "cv"@,
            Flag::Cw => "cw"@,
            Flag::Cx => "cx"@,
            Flag::Cy => "cy"@,
            Flag::Cz => "cz"@,
            Flag::De => "de"@,
            Flag::Dj => "dj"@,
            Flag::Dk => "dk"@,
            Flag::Dm => "dm"@,
            Flag::Do => "do"@,
            Flag::Dz => "dz"@,
            Flag::Ec => "ec"@,
            Flag::Ee => "ee"@,
            Flag::Eg => "eg"@,
            Flag::Eh => "eh"@,
            Flag::Er => "er"@,
            Flag::Es => "es"@,
            Flag::Et => "et"@,
            Flag::Fi => "fi"@,
            Flag::Fj => "fj"@,
            Flag::Fk => "fk"@,
            Flag::Fm => "fm"@,
            Flag::Fo => "fo"@,
            Flag::Fr => "fr"@,
            Flag::Ga => "ga"@,
            Flag::Gb => "gb"@,
            Flag::Gd => "gd"@,
            Flag::Ge => "ge"@,
            Flag::Gf => "gf"@,
            Flag::Gg => "gg"@,
            Flag::Gh => "gh"@,
            Flag::Gi => "gi"@,
            Flag::Gl => "gl"@,
            Flag::Gm => "gm"@,
            Flag::Gn => "gn"@,
            Flag::Gp => "gp"@,
            Flag::Gq => "gq"@,
            Flag::Gr => "gr"@,
            Flag::Gs => "gs"@,
            Flag::Gt => "gt"@,
            Flag::Gu => "gu"@,
            Flag::Gw => "gw"@,
            Flag::Gy => "gy"@,
            Flag::Hk => "hk"@,
            Flag::Hm => "hm"@,
            Flag::Hn => "hn"@,
            Flag::Hr => "hr"@,
            Flag::Ht => "ht"@,
            Flag::Hu => "hu"@,
            Flag::Id => "id"@,
            Flag::Ie => "ie"@,
            Flag::Il => "il"@,
            Flag::Im => "im"@,
            Flag::In => "in"@,
            Flag::Io => "io"@,
            Flag::Iq => "iq"@,
            Flag::Ir => "ir"@,
            Flag::Is => "is"@,
            Flag::It => "it"@,
            Flag::Je => "je"@,
            Flag::Jm => "jm"@,
            Flag::Jo => "jo"@,
            Flag::Jp => "jp"@,
            Flag::Ke => "ke"@,
            Flag::Kg => "kg"@,
            Flag::Kh => "kh"@,
            Flag::Ki => "ki"@,
            Flag::Km => "km"@,
            Flag::Kn => "kn"@,
            Flag::Kp => "kp"@,
            Flag::Kr => "kr"@,
            Flag::Kw => "kw"@,
            Flag::Ky => "ky"@,
            Flag::Kz => "kz"@,
            Flag::La => "la"@,
            Flag::Lb => "lb"@,
            Flag::Lc => "lc"@,
            Flag::Li => "li"@,
            Flag::Lk => "lk"@,
            Flag::Lr => "lr"@,
            Flag::Ls => "ls"@,
            Flag::Lt => "lt"@,
            Flag::Lu => "lu"@,
            Flag::Lv => "lv"@,
            Flag::Ly => "ly"@,
            Flag::Ma => "ma"@,
            Flag::Mc => "mc"@,
            Flag::Md => "md"@,
            Flag::Me => "me"@,
            Flag::Mf => "mf"@,
            Flag::Mg => "mg"@,
            Flag::Mh => "mh"@,
            Flag::Mk => "mk"@,
            Flag::Ml => "ml"@,
            Flag::Mm => "mm"@,
            Flag::Mn => "mn"@,
            Flag::Mo => "mo"@,
            Flag::Mp => "mp"@,
            Flag::Mq => "mq"@,
            Flag::Mr => "mr"@,
            Flag::Ms => "ms"@,
            Flag::Mt => "mt"@,
            Flag::Mu => "mu"@,
            Flag::Mv => "mv"@,
            Flag::Mw => "mw"@,
            Flag::Mx => "mx"@,
            Flag::My => "my"@,
            Flag::Mz => "mz"@,
            Flag::Na => "na"@,
            Flag::Nc => "nc"@,
            Flag::Ne => "ne"@,
            Flag::Nf => "nf"@,
            Flag::Ng => "ng"@,
            Flag::Ni => "ni"@,
            Flag::Nl => "nl"@,
            Flag::No => "no"@,
            Flag::Np => "np"@,
            Flag::Nr => "nr"@,
            Flag::Nu => "nu"@,
            Flag::Nz => "nz"@,
            Flag::Om => "om"@,
            Flag::Pa => "pa"@,
            Flag::Pe => "pe"@,
            Flag::Pf => "pf"@,
            Flag::Pg => "pg"@,
            Flag::Ph => "ph"@,
            Flag::Pk => "pk"@,
            Flag::Pl => "pl"@,
            Flag::Pm => "pm"@,
            Flag::Pn => "pn"@,
            Flag::Pr => "pr"@,
            Flag::Ps => "ps"@,
            Flag::Pt => "pt"@,
            Flag::Pw => "pw"@,
            Flag::Py => "py"@,
            Flag::Qa => "qa"@,
            Flag::Re => "re"@,
            Flag::Ro => "ro"@,
            Flag::Rs => "rs"@,
            Flag::Ru => "ru"@,
            Flag::Rw => "rw"@,
            Flag::Sa => "sa"@,
            Flag::Sb => "sb"@,
            Flag::Sc => "sc"@,
            Flag::Sd => "sd"@,
            Flag::Se => "se"@,
            Flag::Sg => "sg"@,
            Flag::Sh => "sh"@,
            Flag::Si => "si"@,
            Flag::Sj => "sj"@,
            Flag::Sk => "sk"@,
            Flag::Sl => "sl"@,
            Flag::Sm => "sm"@,
            Flag::Sn => "sn"@,
            Flag::So => "so"@,
            Flag::Sr => "sr"@,
            Flag::Ss => "ss"@,
            Flag::St => "st"@,
            Flag::Sv => "sv"@,
            Flag::Sx => "sx"@,
            Flag::Sy => "sy"@,
            Flag::Sz => "sz"@,
            Flag::Tc => "tc"@,
            Flag::Td => "td"@,
            Flag::Tf => "tf"@,
            Flag::Tg => "tg"@,
            Flag::Th => "th"@,
            Flag::Tj => "tj"@,
            Flag::Tk => "tk"@,
            Flag::Tl => "tl"@,
            Flag::Tm => "tm"@,
            Flag::Tn => "tn"@,
            Flag::To => "to"@,
            Flag::Tr => "tr"@,
            Flag::Tt => "tt"@,
            Flag::Tv => "tv"@,
            Flag::Tw => "tw"@,
            Flag::Tz => "tz"@,
            Flag::Ua => "ua"@,
            Flag::Ug => "ug"@,
            Flag::Um => "um"@,
            Flag::Us => "us"@,
            Flag::Uy => "uy"@,
            Flag::Uz => "uz"@,
            Flag::Va => "va"@,
            Flag::Vc => "vc"@,
            Flag::Ve => "ve"@,
            Flag::Vg => "vg"@,
            Flag::Vi => "vi"@,
            Flag::Vn => "vn"@,
            Flag::Vu => "vu"@,
            Flag::Wf => "wf"@,
            Flag::Ws => "ws"@,
            Flag::Ye => "ye"@,
            Flag::Yt => "yt"@,
            Flag::Za => "za"@,
            Flag::Zm => "zm"@,
            Flag::Zw => "zw"@,
        }
    }

    /// The canonical wire string sent to the server.
    pub fn as_ref(&self) -> (r: &'static str)
        ensures
            r@ == self.spec_str(),
    {
        match *self {
            Flag::Ad => "ad",
            Flag::Ae => "ae",
            Flag::Af => "af",
            Flag::Ag => "ag",
            Flag::Ai => "ai",
            Flag::Al => "al",
            Flag::Am => "am",
            Flag::Ao => "ao",
            Flag::Aq => "aq",
            Flag::Ar => "ar",
            Flag::As => "as",
            Flag::At => "at",
            Flag::Au => "au",
            Flag::Aw => "aw",
            Flag::Ax => "ax",
            Flag::Az => "az",
            Flag::Ba => "ba",
            Flag::Bb => "bb",
            Flag::Bd => "bd",
            Flag::Be => "be",
            Flag::Bf => "bf",
            Flag::Bg => "bg",
            Flag::Bh => "bh",
            Flag::Bi => "bi",
            Flag::Bj => "bj",
            Flag::Bl => "bl",
            Flag::Bm => "bm",
            Flag::Bn => "bn",
            Flag::Bo => "bo",
            Flag::Bq => "bq",
            Flag::Br => "br",
            Flag::Bs => "bs",
            Flag::Bt => "bt",
            Flag::Bv => "bv",
            Flag::Bw => "bw",
            Flag::By => "by",
            Flag::Bz => "bz",
            Flag::Ca => "ca",
            Flag::Cc => "cc",
            Flag::Cd => "cd",
            Flag::Cf => "cf",
            Flag::Cg => "cg",
            Flag::Ch => "ch",
            Flag::Ci => "ci",
            Flag::Ck => "ck",
            Flag::Cl => "cl",
            Flag::Cm => "cm",
            Flag::Cn => "cn",
            Flag::Co => "co",
            Flag::Cr => "cr",
            Flag::Cu => "cu",
            Flag::Cv => "cv",
            Flag::Cw => "cw",
            Flag::Cx => "cx",
            Flag::Cy => "cy",
            Flag::Cz => "cz",
            Flag::De => "de",
            Flag::Dj => "dj",
            Flag::Dk => "dk",
            Flag::Dm => "dm",
            Flag::Do => "do",
            Flag::Dz => "dz",
            Flag::Ec => "ec",
            Flag::Ee => "ee",
            Flag::Eg => "eg",
            Flag::Eh => "eh",
            Flag::Er => "er",
            Flag::Es => "es",
            Flag::Et => "et",
            Flag::Fi => "fi",
            Flag::Fj => "fj",
            Flag::Fk => "fk",
            Flag::Fm => "fm",
            Flag::Fo => "fo",
            Flag::Fr => "fr",
            Flag::Ga => "ga",
            Flag::Gb => "gb",
            Flag::Gd => "gd",
            Flag::Ge => "ge",
            Flag::Gf => "gf",
            Flag::Gg => "gg",
            Flag::Gh => "gh",
            Flag::Gi => "gi",
            Flag::Gl => "gl",
            Flag::Gm => "gm",
            Flag::Gn => "gn",
            Flag::Gp => "gp",
            Flag::Gq => "gq",
            Flag::Gr => "gr",
            Flag::Gs => "gs",
            Flag::Gt => "gt",
            Flag::Gu => "gu",
            Flag::Gw => "gw",
            Flag::Gy => "gy",
            Flag::Hk => "hk",
            Flag::Hm => "hm",
            Flag::Hn => "hn",
            Flag::Hr => "hr",
            Flag::Ht => "ht",
            Flag::Hu => "hu",
            Flag::Id => "id",
            Flag::Ie => "ie",
            Flag::Il => "il",
            Flag::Im => "im",
            Flag::In => "in",
            Flag::Io => "io",
            Flag::Iq => "iq",
            Flag::Ir => "ir",
            Flag::Is => "is",
            Flag::It => "it",
            Flag::Je => "je",
            Flag::Jm => "jm",
            Flag::Jo => "jo",
            Flag::Jp => "jp",
            Flag::Ke => "ke",
            Flag::Kg => "kg",
            Flag::Kh => "kh",
            Flag::Ki => "ki",
            Flag::Km => "km",
            Flag::Kn => "kn",
            Flag::Kp => "kp",
            Flag::Kr => "kr",
            Flag::Kw => "kw",
            Flag::Ky => "ky",
            Flag::Kz => "kz",
            Flag::La => "la",
            Flag::Lb => "lb",
            Flag::Lc => "lc",
            Flag::Li => "li",
            Flag::Lk => "lk",
            Flag::Lr => "lr",
            Flag::Ls => "ls",
            Flag::Lt => "lt",
            Flag::Lu => "lu",
            Flag::Lv => "lv",
            Flag::Ly => "ly",
            Flag::Ma => "ma",
            Flag::Mc => "mc",
            Flag::Md => "md",
            Flag::Me => "me",
            Flag::Mf => "mf",
            Flag::Mg => "mg",
            Flag::Mh => "mh",
            Flag::Mk => "mk",
            Flag::Ml => "ml",
            Flag::Mm => "mm",
            Flag::Mn => "mn",
            Flag::Mo => "mo",
            Flag::Mp => "mp",
            Flag::Mq => "mq",
            Flag::Mr => "mr",
            Flag::Ms => "ms",
            Flag::Mt => "mt",
            Flag::Mu => "mu",
            Flag::Mv => "mv",
            Flag::Mw => "mw",
            Flag::Mx => "mx",
            Flag::My => "my",
            Flag::Mz => "mz",
            Flag::Na => "na",
            Flag::Nc => "nc",
            Flag::Ne => "ne",
            Flag::Nf => "nf",
            Flag::Ng => "ng",
            Flag::Ni => "ni",
            Flag::Nl => "nl",
            Flag::No => "no",
            Flag::Np => "np",
            Flag::Nr => "nr",
            Flag::Nu => "nu",
            Flag::Nz => "nz",
            Flag::Om => "om",
            Flag::Pa => "pa",
            Flag::Pe => "pe",
            Flag::Pf => "pf",
            Flag::Pg => "pg",
            Flag::Ph => "ph",
            Flag::Pk => "pk",
            Flag::Pl => "pl",
            Flag::Pm => "pm",
            Flag::Pn => "pn",
            Flag::Pr => "pr",
            Flag::Ps => "ps",
            Flag::Pt => "pt",
            Flag::Pw => "pw",
            Flag::Py => "py",
            Flag::Qa => "qa",
            Flag::Re => "re",
            Flag::Ro => "ro",
            Flag::Rs => "rs",
            Flag::Ru => "ru",
            Flag::Rw => "rw",
            Flag::Sa => "sa",
            Flag::Sb => "sb",
            Flag::Sc => "sc",
            Flag::Sd => "sd",
            Flag::Se => "se",
            Flag::Sg => "sg",
            Flag::Sh => "sh",
            Flag::Si => "si",
            Flag::Sj => "sj",
            Flag::Sk => "sk",
            Flag::Sl => "sl",
            Flag::Sm => "sm",
            Flag::Sn => "sn",
            Flag::So => "so",
            Flag::Sr => "sr",
            Flag::Ss => "ss",
            Flag::St => "st",
            Flag::Sv => "sv",
            Flag::Sx => "sx",
            Flag::Sy => "sy",
            Flag::Sz => "sz",
            Flag::Tc => "tc",
            Flag::Td => "td",
            Flag::Tf => "tf",
            Flag::Tg => "tg",
            Flag::Th => "th",
            Flag::Tj => "tj",
            Flag::Tk => "tk",
            Flag::Tl => "tl",
            Flag::Tm => "tm",
            Flag::Tn => "tn",
            Flag::To => "to",
            Flag::Tr => "tr",
            Flag::Tt => "tt",
            Flag::Tv => "tv",
            Flag::Tw => "tw",
            Flag::Tz => "tz",
            Flag::Ua => "ua",
            Flag::Ug => "ug",
            Flag::Um => "um",
            Flag::Us => "us",
            Flag::Uy => "uy",
            Flag::Uz => "uz",
            Flag::Va => "va",
            Flag::Vc => "vc",
            Flag::Ve => "ve",
            Flag::Vg => "vg",
            Flag::Vi => "vi",
            Flag::Vn => "vn",
            Flag::Vu => "vu",
            Flag::Wf => "wf",
            Flag::Ws => "ws",
            Flag::Ye => "ye",
            Flag::Yt => "yt",
            Flag::Za => "za",
            Flag::Zm => "zm",
            Flag::Zw => "zw",
        }
    }
}

} // verus!
