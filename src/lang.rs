use vstd::prelude::*;
use crate::text::chars_of;

verus! {

/// Number of language codes; every code has an index below it.
pub const LANG_COUNT: usize = 230;

/// A language-script code. The set is closed, so every code has a fixed
/// index that per-language arrays are addressed by.
#[derive(Clone, Copy, PartialEq, Eq, Structural, Debug, Hash)]
pub enum Lang {
    ace_Arab,
    ace_Latn,
    acm_Arab,
    acq_Arab,
    aeb_Arab,
    afr_Latn,
    als_Latn,
    amh_Ethi,
    apc_Arab,
    arb_Arab,
    ars_Arab,
    ary_Arab,
    arz_Arab,
    asm_Beng,
    ast_Latn,
    awa_Deva,
    ayr_Latn,
    azb_Arab,
    azj_Latn,
    bak_Cyrl,
    bam_Latn,
    ban_Latn,
    bel_Cyrl,
    bem_Latn,
    ben_Beng,
    bho_Deva,
    bjn_Arab,
    bjn_Latn,
    bod_Tibt,
    bos_Latn,
    bug_Latn,
    bul_Cyrl,
    cat_Latn,
    ceb_Latn,
    ces_Latn,
    cjk_Latn,
    ckb_Arab,
    cmn_Hans,
    cmn_Hant,
    crh_Latn,
    cym_Latn,
    dan_Latn,
    deu_Latn,
    dik_Latn,
    dyu_Latn,
    dzo_Tibt,
    ekk_Latn,
    ell_Grek,
    eng_Latn,
    epo_Latn,
    eus_Latn,
    ewe_Latn,
    fao_Latn,
    fij_Latn,
    fil_Latn,
    fin_Latn,
    fon_Latn,
    fra_Latn,
    fur_Latn,
    fuv_Latn,
    gaz_Latn,
    gla_Latn,
    gle_Latn,
    glg_Latn,
    gug_Latn,
    guj_Gujr,
    hat_Latn,
    hau_Latn,
    heb_Hebr,
    hin_Deva,
    hne_Deva,
    hrv_Latn,
    hun_Latn,
    hye_Armn,
    ibo_Latn,
    ilo_Latn,
    ind_Latn,
    isl_Latn,
    ita_Latn,
    jav_Latn,
    jpn_Jpan,
    kab_Latn,
    kac_Latn,
    kam_Latn,
    kan_Knda,
    kas_Arab,
    kas_Deva,
    kat_Geor,
    kaz_Cyrl,
    kbp_Latn,
    kea_Latn,
    khk_Cyrl,
    khm_Khmr,
    kik_Latn,
    kin_Latn,
    kir_Cyrl,
    kmb_Latn,
    kmr_Latn,
    knc_Arab,
    knc_Latn,
    kor_Hang,
    ktu_Latn,
    lao_Laoo,
    lij_Latn,
    lim_Latn,
    lin_Latn,
    lit_Latn,
    lmo_Latn,
    ltg_Latn,
    ltz_Latn,
    lua_Latn,
    lug_Latn,
    luo_Latn,
    lus_Latn,
    lvs_Latn,
    mag_Deva,
    mai_Deva,
    mal_Mlym,
    mar_Deva,
    min_Latn,
    mkd_Cyrl,
    mlt_Latn,
    mni_Beng,
    mos_Latn,
    mri_Latn,
    mya_Mymr,
    nld_Latn,
    nno_Latn,
    nob_Latn,
    npi_Deva,
    nso_Latn,
    nus_Latn,
    nya_Latn,
    oci_Latn,
    ory_Orya,
    pag_Latn,
    pan_Guru,
    pap_Latn,
    pbt_Arab,
    pes_Arab,
    plt_Latn,
    pol_Latn,
    por_Latn,
    prs_Arab,
    quy_Latn,
    ron_Latn,
    run_Latn,
    rus_Cyrl,
    sag_Latn,
    san_Deva,
    sat_Olck,
    scn_Latn,
    shn_Mymr,
    sin_Sinh,
    slk_Latn,
    slv_Latn,
    smo_Latn,
    sna_Latn,
    snd_Arab,
    som_Latn,
    sot_Latn,
    spa_Latn,
    srd_Latn,
    srp_Cyrl,
    ssw_Latn,
    sun_Latn,
    swe_Latn,
    swh_Latn,
    szl_Latn,
    tam_Taml,
    taq_Latn,
    taq_Tfng,
    tat_Cyrl,
    tel_Telu,
    tgk_Cyrl,
    tha_Thai,
    tir_Ethi,
    tpi_Latn,
    tsn_Latn,
    tso_Latn,
    tuk_Latn,
    tum_Latn,
    tur_Latn,
    twi_Latn,
    uig_Arab,
    ukr_Cyrl,
    umb_Latn,
    urd_Arab,
    uzn_Latn,
    vec_Latn,
    vie_Latn,
    war_Latn,
    wol_Latn,
    xho_Latn,
    ydd_Hebr,
    yor_Latn,
    yue_Hant,
    zgh_Tfng,
    zsm_Latn,
    zul_Latn,
    /// Undetermined: no language could be chosen.
    und,
    /// No linguistic content.
    zxx,
    // Macrolanguages
    aka_Latn,
    aym_Latn,
    aze_Arab,
    aze_Latn,
    din_Latn,
    fas_Arab,
    ful_Latn,
    hbs_Cyrl,
    hbs_Latn,
    kau_Arab,
    kau_Latn,
    kur_Arab,
    kur_Latn,
    lav_Latn,
    mlg_Latn,
    mon_Cyrl,
    nep_Deva,
    ori_Orya,
    orm_Latn,
    pus_Arab,
    que_Latn,
    sqi_Latn,
    swa_Latn,
    tmh_Latn,
    tmh_Tfng,
    uzb_Latn,
    yid_Hebr,
    zho_Hant,
}

impl Lang {
    /// The fixed index of a code.
    pub open spec fn id(self) -> nat {
        match self {
            Lang::ace_Arab => 0,
            Lang::ace_Latn => 1,
            Lang::acm_Arab => 2,
            Lang::acq_Arab => 3,
            Lang::aeb_Arab => 4,
            Lang::afr_Latn => 5,
            Lang::als_Latn => 6,
            Lang::amh_Ethi => 7,
            Lang::apc_Arab => 8,
            Lang::arb_Arab => 9,
            Lang::ars_Arab => 10,
            Lang::ary_Arab => 11,
            Lang::arz_Arab => 12,
            Lang::asm_Beng => 13,
            Lang::ast_Latn => 14,
            Lang::awa_Deva => 15,
            Lang::ayr_Latn => 16,
            Lang::azb_Arab => 17,
            Lang::azj_Latn => 18,
            Lang::bak_Cyrl => 19,
            Lang::bam_Latn => 20,
            Lang::ban_Latn => 21,
            Lang::bel_Cyrl => 22,
            Lang::bem_Latn => 23,
            Lang::ben_Beng => 24,
            Lang::bho_Deva => 25,
            Lang::bjn_Arab => 26,
            Lang::bjn_Latn => 27,
            Lang::bod_Tibt => 28,
            Lang::bos_Latn => 29,
            Lang::bug_Latn => 30,
            Lang::bul_Cyrl => 31,
            Lang::cat_Latn => 32,
            Lang::ceb_Latn => 33,
            Lang::ces_Latn => 34,
            Lang::cjk_Latn => 35,
            Lang::ckb_Arab => 36,
            Lang::cmn_Hans => 37,
            Lang::cmn_Hant => 38,
            Lang::crh_Latn => 39,
            Lang::cym_Latn => 40,
            Lang::dan_Latn => 41,
            Lang::deu_Latn => 42,
            Lang::dik_Latn => 43,
            Lang::dyu_Latn => 44,
            Lang::dzo_Tibt => 45,
            Lang::ekk_Latn => 46,
            Lang::ell_Grek => 47,
            Lang::eng_Latn => 48,
            Lang::epo_Latn => 49,
            Lang::eus_Latn => 50,
            Lang::ewe_Latn => 51,
            Lang::fao_Latn => 52,
            Lang::fij_Latn => 53,
            Lang::fil_Latn => 54,
            Lang::fin_Latn => 55,
            Lang::fon_Latn => 56,
            Lang::fra_Latn => 57,
            Lang::fur_Latn => 58,
            Lang::fuv_Latn => 59,
            Lang::gaz_Latn => 60,
            Lang::gla_Latn => 61,
            Lang::gle_Latn => 62,
            Lang::glg_Latn => 63,
            Lang::gug_Latn => 64,
            Lang::guj_Gujr => 65,
            Lang::hat_Latn => 66,
            Lang::hau_Latn => 67,
            Lang::heb_Hebr => 68,
            Lang::hin_Deva => 69,
            Lang::hne_Deva => 70,
            Lang::hrv_Latn => 71,
            Lang::hun_Latn => 72,
            Lang::hye_Armn => 73,
            Lang::ibo_Latn => 74,
            Lang::ilo_Latn => 75,
            Lang::ind_Latn => 76,
            Lang::isl_Latn => 77,
            Lang::ita_Latn => 78,
            Lang::jav_Latn => 79,
            Lang::jpn_Jpan => 80,
            Lang::kab_Latn => 81,
            Lang::kac_Latn => 82,
            Lang::kam_Latn => 83,
            Lang::kan_Knda => 84,
            Lang::kas_Arab => 85,
            Lang::kas_Deva => 86,
            Lang::kat_Geor => 87,
            Lang::kaz_Cyrl => 88,
            Lang::kbp_Latn => 89,
            Lang::kea_Latn => 90,
            Lang::khk_Cyrl => 91,
            Lang::khm_Khmr => 92,
            Lang::kik_Latn => 93,
            Lang::kin_Latn => 94,
            Lang::kir_Cyrl => 95,
            Lang::kmb_Latn => 96,
            Lang::kmr_Latn => 97,
            Lang::knc_Arab => 98,
            Lang::knc_Latn => 99,
            Lang::kor_Hang => 100,
            Lang::ktu_Latn => 101,
            Lang::lao_Laoo => 102,
            Lang::lij_Latn => 103,
            Lang::lim_Latn => 104,
            Lang::lin_Latn => 105,
            Lang::lit_Latn => 106,
            Lang::lmo_Latn => 107,
            Lang::ltg_Latn => 108,
            Lang::ltz_Latn => 109,
            Lang::lua_Latn => 110,
            Lang::lug_Latn => 111,
            Lang::luo_Latn => 112,
            Lang::lus_Latn => 113,
            Lang::lvs_Latn => 114,
            Lang::mag_Deva => 115,
            Lang::mai_Deva => 116,
            Lang::mal_Mlym => 117,
            Lang::mar_Deva => 118,
            Lang::min_Latn => 119,
            Lang::mkd_Cyrl => 120,
            Lang::mlt_Latn => 121,
            Lang::mni_Beng => 122,
            Lang::mos_Latn => 123,
            Lang::mri_Latn => 124,
            Lang::mya_Mymr => 125,
            Lang::nld_Latn => 126,
            Lang::nno_Latn => 127,
            Lang::nob_Latn => 128,
            Lang::npi_Deva => 129,
            Lang::nso_Latn => 130,
            Lang::nus_Latn => 131,
            Lang::nya_Latn => 132,
            Lang::oci_Latn => 133,
            Lang::ory_Orya => 134,
            Lang::pag_Latn => 135,
            Lang::pan_Guru => 136,
            Lang::pap_Latn => 137,
            Lang::pbt_Arab => 138,
            Lang::pes_Arab => 139,
            Lang::plt_Latn => 140,
            Lang::pol_Latn => 141,
            Lang::por_Latn => 142,
            Lang::prs_Arab => 143,
            Lang::quy_Latn => 144,
            Lang::ron_Latn => 145,
            Lang::run_Latn => 146,
            Lang::rus_Cyrl => 147,
            Lang::sag_Latn => 148,
            Lang::san_Deva => 149,
            Lang::sat_Olck => 150,
            Lang::scn_Latn => 151,
            Lang::shn_Mymr => 152,
            Lang::sin_Sinh => 153,
            Lang::slk_Latn => 154,
            Lang::slv_Latn => 155,
            Lang::smo_Latn => 156,
            Lang::sna_Latn => 157,
            Lang::snd_Arab => 158,
            Lang::som_Latn => 159,
            Lang::sot_Latn => 160,
            Lang::spa_Latn => 161,
            Lang::srd_Latn => 162,
            Lang::srp_Cyrl => 163,
            Lang::ssw_Latn => 164,
            Lang::sun_Latn => 165,
            Lang::swe_Latn => 166,
            Lang::swh_Latn => 167,
            Lang::szl_Latn => 168,
            Lang::tam_Taml => 169,
            Lang::taq_Latn => 170,
            Lang::taq_Tfng => 171,
            Lang::tat_Cyrl => 172,
            Lang::tel_Telu => 173,
            Lang::tgk_Cyrl => 174,
            Lang::tha_Thai => 175,
            Lang::tir_Ethi => 176,
            Lang::tpi_Latn => 177,
            Lang::tsn_Latn => 178,
            Lang::tso_Latn => 179,
            Lang::tuk_Latn => 180,
            Lang::tum_Latn => 181,
            Lang::tur_Latn => 182,
            Lang::twi_Latn => 183,
            Lang::uig_Arab => 184,
            Lang::ukr_Cyrl => 185,
            Lang::umb_Latn => 186,
            Lang::urd_Arab => 187,
            Lang::uzn_Latn => 188,
            Lang::vec_Latn => 189,
            Lang::vie_Latn => 190,
            Lang::war_Latn => 191,
            Lang::wol_Latn => 192,
            Lang::xho_Latn => 193,
            Lang::ydd_Hebr => 194,
            Lang::yor_Latn => 195,
            Lang::yue_Hant => 196,
            Lang::zgh_Tfng => 197,
            Lang::zsm_Latn => 198,
            Lang::zul_Latn => 199,
            Lang::und => 200,
            Lang::zxx => 201,
            Lang::aka_Latn => 202,
            Lang::aym_Latn => 203,
            Lang::aze_Arab => 204,
            Lang::aze_Latn => 205,
            Lang::din_Latn => 206,
            Lang::fas_Arab => 207,
            Lang::ful_Latn => 208,
            Lang::hbs_Cyrl => 209,
            Lang::hbs_Latn => 210,
            Lang::kau_Arab => 211,
            Lang::kau_Latn => 212,
            Lang::kur_Arab => 213,
            Lang::kur_Latn => 214,
            Lang::lav_Latn => 215,
            Lang::mlg_Latn => 216,
            Lang::mon_Cyrl => 217,
            Lang::nep_Deva => 218,
            Lang::ori_Orya => 219,
            Lang::orm_Latn => 220,
            Lang::pus_Arab => 221,
            Lang::que_Latn => 222,
            Lang::sqi_Latn => 223,
            Lang::swa_Latn => 224,
            Lang::tmh_Latn => 225,
            Lang::tmh_Tfng => 226,
            Lang::uzb_Latn => 227,
            Lang::yid_Hebr => 228,
            Lang::zho_Hant => 229,
        }
    }

    /// The code at an index, if the index is in range.
    pub open spec fn from_id(i: usize) -> Option<Lang> {
        if i >= LANG_COUNT {
            None
        } else {
            Some(
                match i {
                    0 => Lang::ace_Arab,
                    1 => Lang::ace_Latn,
                    2 => Lang::acm_Arab,
                    3 => Lang::acq_Arab,
                    4 => Lang::aeb_Arab,
                    5 => Lang::afr_Latn,
                    6 => Lang::als_Latn,
                    7 => Lang::amh_Ethi,
                    8 => Lang::apc_Arab,
                    9 => Lang::arb_Arab,
                    10 => Lang::ars_Arab,
                    11 => Lang::ary_Arab,
                    12 => Lang::arz_Arab,
                    13 => Lang::asm_Beng,
                    14 => Lang::ast_Latn,
                    15 => Lang::awa_Deva,
                    16 => Lang::ayr_Latn,
                    17 => Lang::azb_Arab,
                    18 => Lang::azj_Latn,
                    19 => Lang::bak_Cyrl,
                    20 => Lang::bam_Latn,
                    21 => Lang::ban_Latn,
                    22 => Lang::bel_Cyrl,
                    23 => Lang::bem_Latn,
                    24 => Lang::ben_Beng,
                    25 => Lang::bho_Deva,
                    26 => Lang::bjn_Arab,
                    27 => Lang::bjn_Latn,
                    28 => Lang::bod_Tibt,
                    29 => Lang::bos_Latn,
                    30 => Lang::bug_Latn,
                    31 => Lang::bul_Cyrl,
                    32 => Lang::cat_Latn,
                    33 => Lang::ceb_Latn,
                    34 => Lang::ces_Latn,
                    35 => Lang::cjk_Latn,
                    36 => Lang::ckb_Arab,
                    37 => Lang::cmn_Hans,
                    38 => Lang::cmn_Hant,
                    39 => Lang::crh_Latn,
                    40 => Lang::cym_Latn,
                    41 => Lang::dan_Latn,
                    42 => Lang::deu_Latn,
                    43 => Lang::dik_Latn,
                    44 => Lang::dyu_Latn,
                    45 => Lang::dzo_Tibt,
                    46 => Lang::ekk_Latn,
                    47 => Lang::ell_Grek,
                    48 => Lang::eng_Latn,
                    49 => Lang::epo_Latn,
                    50 => Lang::eus_Latn,
                    51 => Lang::ewe_Latn,
                    52 => Lang::fao_Latn,
                    53 => Lang::fij_Latn,
                    54 => Lang::fil_Latn,
                    55 => Lang::fin_Latn,
                    56 => Lang::fon_Latn,
                    57 => Lang::fra_Latn,
                    58 => Lang::fur_Latn,
                    59 => Lang::fuv_Latn,
                    60 => Lang::gaz_Latn,
                    61 => Lang::gla_Latn,
                    62 => Lang::gle_Latn,
                    63 => Lang::glg_Latn,
                    64 => Lang::gug_Latn,
                    65 => Lang::guj_Gujr,
                    66 => Lang::hat_Latn,
                    67 => Lang::hau_Latn,
                    68 => Lang::heb_Hebr,
                    69 => Lang::hin_Deva,
                    70 => Lang::hne_Deva,
                    71 => Lang::hrv_Latn,
                    72 => Lang::hun_Latn,
                    73 => Lang::hye_Armn,
                    74 => Lang::ibo_Latn,
                    75 => Lang::ilo_Latn,
                    76 => Lang::ind_Latn,
                    77 => Lang::isl_Latn,
                    78 => Lang::ita_Latn,
                    79 => Lang::jav_Latn,
                    80 => Lang::jpn_Jpan,
                    81 => Lang::kab_Latn,
                    82 => Lang::kac_Latn,
                    83 => Lang::kam_Latn,
                    84 => Lang::kan_Knda,
                    85 => Lang::kas_Arab,
                    86 => Lang::kas_Deva,
                    87 => Lang::kat_Geor,
                    88 => Lang::kaz_Cyrl,
                    89 => Lang::kbp_Latn,
                    90 => Lang::kea_Latn,
                    91 => Lang::khk_Cyrl,
                    92 => Lang::khm_Khmr,
                    93 => Lang::kik_Latn,
                    94 => Lang::kin_Latn,
                    95 => Lang::kir_Cyrl,
                    96 => Lang::kmb_Latn,
                    97 => Lang::kmr_Latn,
                    98 => Lang::knc_Arab,
                    99 => Lang::knc_Latn,
                    100 => Lang::kor_Hang,
                    101 => Lang::ktu_Latn,
                    102 => Lang::lao_Laoo,
                    103 => Lang::lij_Latn,
                    104 => Lang::lim_Latn,
                    105 => Lang::lin_Latn,
                    106 => Lang::lit_Latn,
                    107 => Lang::lmo_Latn,
                    108 => Lang::ltg_Latn,
                    109 => Lang::ltz_Latn,
                    110 => Lang::lua_Latn,
                    111 => Lang::lug_Latn,
                    112 => Lang::luo_Latn,
                    113 => Lang::lus_Latn,
                    114 => Lang::lvs_Latn,
                    115 => Lang::mag_Deva,
                    116 => Lang::mai_Deva,
                    117 => Lang::mal_Mlym,
                    118 => Lang::mar_Deva,
                    119 => Lang::min_Latn,
                    120 => Lang::mkd_Cyrl,
                    121 => Lang::mlt_Latn,
                    122 => Lang::mni_Beng,
                    123 => Lang::mos_Latn,
                    124 => Lang::mri_Latn,
                    125 => Lang::mya_Mymr,
                    126 => Lang::nld_Latn,
                    127 => Lang::nno_Latn,
                    128 => Lang::nob_Latn,
                    129 => Lang::npi_Deva,
                    130 => Lang::nso_Latn,
                    131 => Lang::nus_Latn,
                    132 => Lang::nya_Latn,
                    133 => Lang::oci_Latn,
                    134 => Lang::ory_Orya,
                    135 => Lang::pag_Latn,
                    136 => Lang::pan_Guru,
                    137 => Lang::pap_Latn,
                    138 => Lang::pbt_Arab,
                    139 => Lang::pes_Arab,
                    140 => Lang::plt_Latn,
                    141 => Lang::pol_Latn,
                    142 => Lang::por_Latn,
                    143 => Lang::prs_Arab,
                    144 => Lang::quy_Latn,
                    145 => Lang::ron_Latn,
                    146 => Lang::run_Latn,
                    147 => Lang::rus_Cyrl,
                    148 => Lang::sag_Latn,
                    149 => Lang::san_Deva,
                    150 => Lang::sat_Olck,
                    151 => Lang::scn_Latn,
                    152 => Lang::shn_Mymr,
                    153 => Lang::sin_Sinh,
                    154 => Lang::slk_Latn,
                    155 => Lang::slv_Latn,
                    156 => Lang::smo_Latn,
                    157 => Lang::sna_Latn,
                    158 => Lang::snd_Arab,
                    159 => Lang::som_Latn,
                    160 => Lang::sot_Latn,
                    161 => Lang::spa_Latn,
                    162 => Lang::srd_Latn,
                    163 => Lang::srp_Cyrl,
                    164 => Lang::ssw_Latn,
                    165 => Lang::sun_Latn,
                    166 => Lang::swe_Latn,
                    167 => Lang::swh_Latn,
                    168 => Lang::szl_Latn,
                    169 => Lang::tam_Taml,
                    170 => Lang::taq_Latn,
                    171 => Lang::taq_Tfng,
                    172 => Lang::tat_Cyrl,
                    173 => Lang::tel_Telu,
                    174 => Lang::tgk_Cyrl,
                    175 => Lang::tha_Thai,
                    176 => Lang::tir_Ethi,
                    177 => Lang::tpi_Latn,
                    178 => Lang::tsn_Latn,
                    179 => Lang::tso_Latn,
                    180 => Lang::tuk_Latn,
                    181 => Lang::tum_Latn,
                    182 => Lang::tur_Latn,
                    183 => Lang::twi_Latn,
                    184 => Lang::uig_Arab,
                    185 => Lang::ukr_Cyrl,
                    186 => Lang::umb_Latn,
                    187 => Lang::urd_Arab,
                    188 => Lang::uzn_Latn,
                    189 => Lang::vec_Latn,
                    190 => Lang::vie_Latn,
                    191 => Lang::war_Latn,
                    192 => Lang::wol_Latn,
                    193 => Lang::xho_Latn,
                    194 => Lang::ydd_Hebr,
                    195 => Lang::yor_Latn,
                    196 => Lang::yue_Hant,
                    197 => Lang::zgh_Tfng,
                    198 => Lang::zsm_Latn,
                    199 => Lang::zul_Latn,
                    200 => Lang::und,
                    201 => Lang::zxx,
                    202 => Lang::aka_Latn,
                    203 => Lang::aym_Latn,
                    204 => Lang::aze_Arab,
                    205 => Lang::aze_Latn,
                    206 => Lang::din_Latn,
                    207 => Lang::fas_Arab,
                    208 => Lang::ful_Latn,
                    209 => Lang::hbs_Cyrl,
                    210 => Lang::hbs_Latn,
                    211 => Lang::kau_Arab,
                    212 => Lang::kau_Latn,
                    213 => Lang::kur_Arab,
                    214 => Lang::kur_Latn,
                    215 => Lang::lav_Latn,
                    216 => Lang::mlg_Latn,
                    217 => Lang::mon_Cyrl,
                    218 => Lang::nep_Deva,
                    219 => Lang::ori_Orya,
                    220 => Lang::orm_Latn,
                    221 => Lang::pus_Arab,
                    222 => Lang::que_Latn,
                    223 => Lang::sqi_Latn,
                    224 => Lang::swa_Latn,
                    225 => Lang::tmh_Latn,
                    226 => Lang::tmh_Tfng,
                    227 => Lang::uzb_Latn,
                    228 => Lang::yid_Hebr,
                    _ => Lang::zho_Hant,
                },
            )
        }
    }

    /// Every code has an index in range, and the index leads back to it.
    pub proof fn lemma_id(self)
        ensures
            self.id() < LANG_COUNT,
            Lang::from_id(self.id() as usize) == Some(self),
    {
    }

    /// Every index in range names a code whose index it is.
    pub proof fn lemma_from_id(i: usize)
        requires
            i < LANG_COUNT,
        ensures
            Lang::from_id(i) is Some,
            Lang::from_id(i)->0.id() == i,
    {
    }

    /// The index of this code.
    pub fn index(&self) -> (r: usize)
        ensures
            r == self.id(),
    {
        match self {
            Lang::ace_Arab => 0,
            Lang::ace_Latn => 1,
            Lang::acm_Arab => 2,
            Lang::acq_Arab => 3,
            Lang::aeb_Arab => 4,
            Lang::afr_Latn => 5,
            Lang::als_Latn => 6,
            Lang::amh_Ethi => 7,
            Lang::apc_Arab => 8,
            Lang::arb_Arab => 9,
            Lang::ars_Arab => 10,
            Lang::ary_Arab => 11,
            Lang::arz_Arab => 12,
            Lang::asm_Beng => 13,
            Lang::ast_Latn => 14,
            Lang::awa_Deva => 15,
            Lang::ayr_Latn => 16,
            Lang::azb_Arab => 17,
            Lang::azj_Latn => 18,
            Lang::bak_Cyrl => 19,
            Lang::bam_Latn => 20,
            Lang::ban_Latn => 21,
            Lang::bel_Cyrl => 22,
            Lang::bem_Latn => 23,
            Lang::ben_Beng => 24,
            Lang::bho_Deva => 25,
            Lang::bjn_Arab => 26,
            Lang::bjn_Latn => 27,
            Lang::bod_Tibt => 28,
            Lang::bos_Latn => 29,
            Lang::bug_Latn => 30,
            Lang::bul_Cyrl => 31,
            Lang::cat_Latn => 32,
            Lang::ceb_Latn => 33,
            Lang::ces_Latn => 34,
            Lang::cjk_Latn => 35,
            Lang::ckb_Arab => 36,
            Lang::cmn_Hans => 37,
            Lang::cmn_Hant => 38,
            Lang::crh_Latn => 39,
            Lang::cym_Latn => 40,
            Lang::dan_Latn => 41,
            Lang::deu_Latn => 42,
            Lang::dik_Latn => 43,
            Lang::dyu_Latn => 44,
            Lang::dzo_Tibt => 45,
            Lang::ekk_Latn => 46,
            Lang::ell_Grek => 47,
            Lang::eng_Latn => 48,
            Lang::epo_Latn => 49,
            Lang::eus_Latn => 50,
            Lang::ewe_Latn => 51,
            Lang::fao_Latn => 52,
            Lang::fij_Latn => 53,
            Lang::fil_Latn => 54,
            Lang::fin_Latn => 55,
            Lang::fon_Latn => 56,
            Lang::fra_Latn => 57,
            Lang::fur_Latn => 58,
            Lang::fuv_Latn => 59,
            Lang::gaz_Latn => 60,
            Lang::gla_Latn => 61,
            Lang::gle_Latn => 62,
            Lang::glg_Latn => 63,
            Lang::gug_Latn => 64,
            Lang::guj_Gujr => 65,
            Lang::hat_Latn => 66,
            Lang::hau_Latn => 67,
            Lang::heb_Hebr => 68,
            Lang::hin_Deva => 69,
            Lang::hne_Deva => 70,
            Lang::hrv_Latn => 71,
            Lang::hun_Latn => 72,
            Lang::hye_Armn => 73,
            Lang::ibo_Latn => 74,
            Lang::ilo_Latn => 75,
            Lang::ind_Latn => 76,
            Lang::isl_Latn => 77,
            Lang::ita_Latn => 78,
            Lang::jav_Latn => 79,
            Lang::jpn_Jpan => 80,
            Lang::kab_Latn => 81,
            Lang::kac_Latn => 82,
            Lang::kam_Latn => 83,
            Lang::kan_Knda => 84,
            Lang::kas_Arab => 85,
            Lang::kas_Deva => 86,
            Lang::kat_Geor => 87,
            Lang::kaz_Cyrl => 88,
            Lang::kbp_Latn => 89,
            Lang::kea_Latn => 90,
            Lang::khk_Cyrl => 91,
            Lang::khm_Khmr => 92,
            Lang::kik_Latn => 93,
            Lang::kin_Latn => 94,
            Lang::kir_Cyrl => 95,
            Lang::kmb_Latn => 96,
            Lang::kmr_Latn => 97,
            Lang::knc_Arab => 98,
            Lang::knc_Latn => 99,
            Lang::kor_Hang => 100,
            Lang::ktu_Latn => 101,
            Lang::lao_Laoo => 102,
            Lang::lij_Latn => 103,
            Lang::lim_Latn => 104,
            Lang::lin_Latn => 105,
            Lang::lit_Latn => 106,
            Lang::lmo_Latn => 107,
            Lang::ltg_Latn => 108,
            Lang::ltz_Latn => 109,
            Lang::lua_Latn => 110,
            Lang::lug_Latn => 111,
            Lang::luo_Latn => 112,
            Lang::lus_Latn => 113,
            Lang::lvs_Latn => 114,
            Lang::mag_Deva => 115,
            Lang::mai_Deva => 116,
            Lang::mal_Mlym => 117,
            Lang::mar_Deva => 118,
            Lang::min_Latn => 119,
            Lang::mkd_Cyrl => 120,
            Lang::mlt_Latn => 121,
            Lang::mni_Beng => 122,
            Lang::mos_Latn => 123,
            Lang::mri_Latn => 124,
            Lang::mya_Mymr => 125,
            Lang::nld_Latn => 126,
            Lang::nno_Latn => 127,
            Lang::nob_Latn => 128,
            Lang::npi_Deva => 129,
            Lang::nso_Latn => 130,
            Lang::nus_Latn => 131,
            Lang::nya_Latn => 132,
            Lang::oci_Latn => 133,
            Lang::ory_Orya => 134,
            Lang::pag_Latn => 135,
            Lang::pan_Guru => 136,
            Lang::pap_Latn => 137,
            Lang::pbt_Arab => 138,
            Lang::pes_Arab => 139,
            Lang::plt_Latn => 140,
            Lang::pol_Latn => 141,
            Lang::por_Latn => 142,
            Lang::prs_Arab => 143,
            Lang::quy_Latn => 144,
            Lang::ron_Latn => 145,
            Lang::run_Latn => 146,
            Lang::rus_Cyrl => 147,
            Lang::sag_Latn => 148,
            Lang::san_Deva => 149,
            Lang::sat_Olck => 150,
            Lang::scn_Latn => 151,
            Lang::shn_Mymr => 152,
            Lang::sin_Sinh => 153,
            Lang::slk_Latn => 154,
            Lang::slv_Latn => 155,
            Lang::smo_Latn => 156,
            Lang::sna_Latn => 157,
            Lang::snd_Arab => 158,
            Lang::som_Latn => 159,
            Lang::sot_Latn => 160,
            Lang::spa_Latn => 161,
            Lang::srd_Latn => 162,
            Lang::srp_Cyrl => 163,
            Lang::ssw_Latn => 164,
            Lang::sun_Latn => 165,
            Lang::swe_Latn => 166,
            Lang::swh_Latn => 167,
            Lang::szl_Latn => 168,
            Lang::tam_Taml => 169,
            Lang::taq_Latn => 170,
            Lang::taq_Tfng => 171,
            Lang::tat_Cyrl => 172,
            Lang::tel_Telu => 173,
            Lang::tgk_Cyrl => 174,
            Lang::tha_Thai => 175,
            Lang::tir_Ethi => 176,
            Lang::tpi_Latn => 177,
            Lang::tsn_Latn => 178,
            Lang::tso_Latn => 179,
            Lang::tuk_Latn => 180,
            Lang::tum_Latn => 181,
            Lang::tur_Latn => 182,
            Lang::twi_Latn => 183,
            Lang::uig_Arab => 184,
            Lang::ukr_Cyrl => 185,
            Lang::umb_Latn => 186,
            Lang::urd_Arab => 187,
            Lang::uzn_Latn => 188,
            Lang::vec_Latn => 189,
            Lang::vie_Latn => 190,
            Lang::war_Latn => 191,
            Lang::wol_Latn => 192,
            Lang::xho_Latn => 193,
            Lang::ydd_Hebr => 194,
            Lang::yor_Latn => 195,
            Lang::yue_Hant => 196,
            Lang::zgh_Tfng => 197,
            Lang::zsm_Latn => 198,
            Lang::zul_Latn => 199,
            Lang::und => 200,
            Lang::zxx => 201,
            Lang::aka_Latn => 202,
            Lang::aym_Latn => 203,
            Lang::aze_Arab => 204,
            Lang::aze_Latn => 205,
            Lang::din_Latn => 206,
            Lang::fas_Arab => 207,
            Lang::ful_Latn => 208,
            Lang::hbs_Cyrl => 209,
            Lang::hbs_Latn => 210,
            Lang::kau_Arab => 211,
            Lang::kau_Latn => 212,
            Lang::kur_Arab => 213,
            Lang::kur_Latn => 214,
            Lang::lav_Latn => 215,
            Lang::mlg_Latn => 216,
            Lang::mon_Cyrl => 217,
            Lang::nep_Deva => 218,
            Lang::ori_Orya => 219,
            Lang::orm_Latn => 220,
            Lang::pus_Arab => 221,
            Lang::que_Latn => 222,
            Lang::sqi_Latn => 223,
            Lang::swa_Latn => 224,
            Lang::tmh_Latn => 225,
            Lang::tmh_Tfng => 226,
            Lang::uzb_Latn => 227,
            Lang::yid_Hebr => 228,
            Lang::zho_Hant => 229,
        }
    }

    /// The code at index `i`, or `None` when `i` is out of range.
    pub fn from_index(i: usize) -> (r: Option<Lang>)
        ensures
            r == Lang::from_id(i),
    {
        match i {
            0 => Some(Lang::ace_Arab),
            1 => Some(Lang::ace_Latn),
            2 => Some(Lang::acm_Arab),
            3 => Some(Lang::acq_Arab),
            4 => Some(Lang::aeb_Arab),
            5 => Some(Lang::afr_Latn),
            6 => Some(Lang::als_Latn),
            7 => Some(Lang::amh_Ethi),
            8 => Some(Lang::apc_Arab),
            9 => Some(Lang::arb_Arab),
            10 => Some(Lang::ars_Arab),
            11 => Some(Lang::ary_Arab),
            12 => Some(Lang::arz_Arab),
            13 => Some(Lang::asm_Beng),
            14 => Some(Lang::ast_Latn),
            15 => Some(Lang::awa_Deva),
            16 => Some(Lang::ayr_Latn),
            17 => Some(Lang::azb_Arab),
            18 => Some(Lang::azj_Latn),
            19 => Some(Lang::bak_Cyrl),
            20 => Some(Lang::bam_Latn),
            21 => Some(Lang::ban_Latn),
            22 => Some(Lang::bel_Cyrl),
            23 => Some(Lang::bem_Latn),
            24 => Some(Lang::ben_Beng),
            25 => Some(Lang::bho_Deva),
            26 => Some(Lang::bjn_Arab),
            27 => Some(Lang::bjn_Latn),
            28 => Some(Lang::bod_Tibt),
            29 => Some(Lang::bos_Latn),
            30 => Some(Lang::bug_Latn),
            31 => Some(Lang::bul_Cyrl),
            32 => Some(Lang::cat_Latn),
            33 => Some(Lang::ceb_Latn),
            34 => Some(Lang::ces_Latn),
            35 => Some(Lang::cjk_Latn),
            36 => Some(Lang::ckb_Arab),
            37 => Some(Lang::cmn_Hans),
            38 => Some(Lang::cmn_Hant),
            39 => Some(Lang::crh_Latn),
            40 => Some(Lang::cym_Latn),
            41 => Some(Lang::dan_Latn),
            42 => Some(Lang::deu_Latn),
            43 => Some(Lang::dik_Latn),
            44 => Some(Lang::dyu_Latn),
            45 => Some(Lang::dzo_Tibt),
            46 => Some(Lang::ekk_Latn),
            47 => Some(Lang::ell_Grek),
            48 => Some(Lang::eng_Latn),
            49 => Some(Lang::epo_Latn),
            50 => Some(Lang::eus_Latn),
            51 => Some(Lang::ewe_Latn),
            52 => Some(Lang::fao_Latn),
            53 => Some(Lang::fij_Latn),
            54 => Some(Lang::fil_Latn),
            55 => Some(Lang::fin_Latn),
            56 => Some(Lang::fon_Latn),
            57 => Some(Lang::fra_Latn),
            58 => Some(Lang::fur_Latn),
            59 => Some(Lang::fuv_Latn),
            60 => Some(Lang::gaz_Latn),
            61 => Some(Lang::gla_Latn),
            62 => Some(Lang::gle_Latn),
            63 => Some(Lang::glg_Latn),
            64 => Some(Lang::gug_Latn),
            65 => Some(Lang::guj_Gujr),
            66 => Some(Lang::hat_Latn),
            67 => Some(Lang::hau_Latn),
            68 => Some(Lang::heb_Hebr),
            69 => Some(Lang::hin_Deva),
            70 => Some(Lang::hne_Deva),
            71 => Some(Lang::hrv_Latn),
            72 => Some(Lang::hun_Latn),
            73 => Some(Lang::hye_Armn),
            74 => Some(Lang::ibo_Latn),
            75 => Some(Lang::ilo_Latn),
            76 => Some(Lang::ind_Latn),
            77 => Some(Lang::isl_Latn),
            78 => Some(Lang::ita_Latn),
            79 => Some(Lang::jav_Latn),
            80 => Some(Lang::jpn_Jpan),
            81 => Some(Lang::kab_Latn),
            82 => Some(Lang::kac_Latn),
            83 => Some(Lang::kam_Latn),
            84 => Some(Lang::kan_Knda),
            85 => Some(Lang::kas_Arab),
            86 => Some(Lang::kas_Deva),
            87 => Some(Lang::kat_Geor),
            88 => Some(Lang::kaz_Cyrl),
            89 => Some(Lang::kbp_Latn),
            90 => Some(Lang::kea_Latn),
            91 => Some(Lang::khk_Cyrl),
            92 => Some(Lang::khm_Khmr),
            93 => Some(Lang::kik_Latn),
            94 => Some(Lang::kin_Latn),
            95 => Some(Lang::kir_Cyrl),
            96 => Some(Lang::kmb_Latn),
            97 => Some(Lang::kmr_Latn),
            98 => Some(Lang::knc_Arab),
            99 => Some(Lang::knc_Latn),
            100 => Some(Lang::kor_Hang),
            101 => Some(Lang::ktu_Latn),
            102 => Some(Lang::lao_Laoo),
            103 => Some(Lang::lij_Latn),
            104 => Some(Lang::lim_Latn),
            105 => Some(Lang::lin_Latn),
            106 => Some(Lang::lit_Latn),
            107 => Some(Lang::lmo_Latn),
            108 => Some(Lang::ltg_Latn),
            109 => Some(Lang::ltz_Latn),
            110 => Some(Lang::lua_Latn),
            111 => Some(Lang::lug_Latn),
            112 => Some(Lang::luo_Latn),
            113 => Some(Lang::lus_Latn),
            114 => Some(Lang::lvs_Latn),
            115 => Some(Lang::mag_Deva),
            116 => Some(Lang::mai_Deva),
            117 => Some(Lang::mal_Mlym),
            118 => Some(Lang::mar_Deva),
            119 => Some(Lang::min_Latn),
            120 => Some(Lang::mkd_Cyrl),
            121 => Some(Lang::mlt_Latn),
            122 => Some(Lang::mni_Beng),
            123 => Some(Lang::mos_Latn),
            124 => Some(Lang::mri_Latn),
            125 => Some(Lang::mya_Mymr),
            126 => Some(Lang::nld_Latn),
            127 => Some(Lang::nno_Latn),
            128 => Some(Lang::nob_Latn),
            129 => Some(Lang::npi_Deva),
            130 => Some(Lang::nso_Latn),
            131 => Some(Lang::nus_Latn),
            132 => Some(Lang::nya_Latn),
            133 => Some(Lang::oci_Latn),
            134 => Some(Lang::ory_Orya),
            135 => Some(Lang::pag_Latn),
            136 => Some(Lang::pan_Guru),
            137 => Some(Lang::pap_Latn),
            138 => Some(Lang::pbt_Arab),
            139 => Some(Lang::pes_Arab),
            140 => Some(Lang::plt_Latn),
            141 => Some(Lang::pol_Latn),
            142 => Some(Lang::por_Latn),
            143 => Some(Lang::prs_Arab),
            144 => Some(Lang::quy_Latn),
            145 => Some(Lang::ron_Latn),
            146 => Some(Lang::run_Latn),
            147 => Some(Lang::rus_Cyrl),
            148 => Some(Lang::sag_Latn),
            149 => Some(Lang::san_Deva),
            150 => Some(Lang::sat_Olck),
            151 => Some(Lang::scn_Latn),
            152 => Some(Lang::shn_Mymr),
            153 => Some(Lang::sin_Sinh),
            154 => Some(Lang::slk_Latn),
            155 => Some(Lang::slv_Latn),
            156 => Some(Lang::smo_Latn),
            157 => Some(Lang::sna_Latn),
            158 => Some(Lang::snd_Arab),
            159 => Some(Lang::som_Latn),
            160 => Some(Lang::sot_Latn),
            161 => Some(Lang::spa_Latn),
            162 => Some(Lang::srd_Latn),
            163 => Some(Lang::srp_Cyrl),
            164 => Some(Lang::ssw_Latn),
            165 => Some(Lang::sun_Latn),
            166 => Some(Lang::swe_Latn),
            167 => Some(Lang::swh_Latn),
            168 => Some(Lang::szl_Latn),
            169 => Some(Lang::tam_Taml),
            170 => Some(Lang::taq_Latn),
            171 => Some(Lang::taq_Tfng),
            172 => Some(Lang::tat_Cyrl),
            173 => Some(Lang::tel_Telu),
            174 => Some(Lang::tgk_Cyrl),
            175 => Some(Lang::tha_Thai),
            176 => Some(Lang::tir_Ethi),
            177 => Some(Lang::tpi_Latn),
            178 => Some(Lang::tsn_Latn),
            179 => Some(Lang::tso_Latn),
            180 => Some(Lang::tuk_Latn),
            181 => Some(Lang::tum_Latn),
            182 => Some(Lang::tur_Latn),
            183 => Some(Lang::twi_Latn),
            184 => Some(Lang::uig_Arab),
            185 => Some(Lang::ukr_Cyrl),
            186 => Some(Lang::umb_Latn),
            187 => Some(Lang::urd_Arab),
            188 => Some(Lang::uzn_Latn),
            189 => Some(Lang::vec_Latn),
            190 => Some(Lang::vie_Latn),
            191 => Some(Lang::war_Latn),
            192 => Some(Lang::wol_Latn),
            193 => Some(Lang::xho_Latn),
            194 => Some(Lang::ydd_Hebr),
            195 => Some(Lang::yor_Latn),
            196 => Some(Lang::yue_Hant),
            197 => Some(Lang::zgh_Tfng),
            198 => Some(Lang::zsm_Latn),
            199 => Some(Lang::zul_Latn),
            200 => Some(Lang::und),
            201 => Some(Lang::zxx),
            202 => Some(Lang::aka_Latn),
            203 => Some(Lang::aym_Latn),
            204 => Some(Lang::aze_Arab),
            205 => Some(Lang::aze_Latn),
            206 => Some(Lang::din_Latn),
            207 => Some(Lang::fas_Arab),
            208 => Some(Lang::ful_Latn),
            209 => Some(Lang::hbs_Cyrl),
            210 => Some(Lang::hbs_Latn),
            211 => Some(Lang::kau_Arab),
            212 => Some(Lang::kau_Latn),
            213 => Some(Lang::kur_Arab),
            214 => Some(Lang::kur_Latn),
            215 => Some(Lang::lav_Latn),
            216 => Some(Lang::mlg_Latn),
            217 => Some(Lang::mon_Cyrl),
            218 => Some(Lang::nep_Deva),
            219 => Some(Lang::ori_Orya),
            220 => Some(Lang::orm_Latn),
            221 => Some(Lang::pus_Arab),
            222 => Some(Lang::que_Latn),
            223 => Some(Lang::sqi_Latn),
            224 => Some(Lang::swa_Latn),
            225 => Some(Lang::tmh_Latn),
            226 => Some(Lang::tmh_Tfng),
            227 => Some(Lang::uzb_Latn),
            228 => Some(Lang::yid_Hebr),
            229 => Some(Lang::zho_Hant),
            _ => None,
        }
    }

    /// The codes written in a CJK script.
    pub open spec fn cjk(self) -> bool {
        self == Lang::jpn_Jpan || self == Lang::kor_Hang || self == Lang::cmn_Hans
            || self == Lang::cmn_Hant || self == Lang::yue_Hant || self == Lang::zho_Hant
    }

    /// Whether the code is written in a CJK script.
    pub fn is_cjk(&self) -> (r: bool)
        ensures
            r == self.cjk(),
    {
        *self == Lang::jpn_Jpan || *self == Lang::kor_Hang || *self == Lang::cmn_Hans
            || *self == Lang::cmn_Hant || *self == Lang::yue_Hant || *self == Lang::zho_Hant
    }

    /// The reserved codes, which no model describes.
    pub open spec fn special(self) -> bool {
        self == Lang::und || self == Lang::zxx
    }

    /// Whether the code is one of the reserved codes `und` and `zxx`.
    pub fn is_special(&self) -> (r: bool)
        ensures
            r == self.special(),
    {
        *self == Lang::und || *self == Lang::zxx
    }

    /// The macrolanguage a variant code belongs to; other codes map to themselves.
    pub open spec fn macro_of(self) -> Lang {
        match self {
            Lang::twi_Latn => Lang::aka_Latn,
            Lang::ayr_Latn => Lang::aym_Latn,
            Lang::azb_Arab => Lang::aze_Arab,
            Lang::azj_Latn => Lang::aze_Latn,
            Lang::dik_Latn => Lang::din_Latn,
            Lang::pes_Arab => Lang::fas_Arab,
            Lang::prs_Arab => Lang::fas_Arab,
            Lang::fuv_Latn => Lang::ful_Latn,
            Lang::bos_Latn => Lang::hbs_Latn,
            Lang::hrv_Latn => Lang::hbs_Latn,
            Lang::srp_Cyrl => Lang::hbs_Cyrl,
            Lang::knc_Latn => Lang::kau_Latn,
            Lang::knc_Arab => Lang::kau_Arab,
            Lang::ckb_Arab => Lang::kur_Arab,
            Lang::kmr_Latn => Lang::kur_Latn,
            Lang::ltg_Latn => Lang::lav_Latn,
            Lang::lvs_Latn => Lang::lav_Latn,
            Lang::plt_Latn => Lang::mlg_Latn,
            Lang::khk_Cyrl => Lang::mon_Cyrl,
            Lang::npi_Deva => Lang::nep_Deva,
            Lang::ory_Orya => Lang::ori_Orya,
            Lang::gaz_Latn => Lang::orm_Latn,
            Lang::pbt_Arab => Lang::pus_Arab,
            Lang::quy_Latn => Lang::que_Latn,
            Lang::sqi_Latn => Lang::als_Latn,
            Lang::swh_Latn => Lang::swa_Latn,
            Lang::taq_Tfng => Lang::tmh_Tfng,
            Lang::taq_Latn => Lang::taq_Latn,
            Lang::uzn_Latn => Lang::uzb_Latn,
            Lang::ydd_Hebr => Lang::yid_Hebr,
            Lang::yue_Hant => Lang::zho_Hant,
            _ => self,
        }
    }

    /// The macrolanguage this code belongs to.
    pub fn macrolang(&self) -> (r: Lang)
        ensures
            r == self.macro_of(),
    {
        match self {
            Lang::twi_Latn => Lang::aka_Latn,
            Lang::ayr_Latn => Lang::aym_Latn,
            Lang::azb_Arab => Lang::aze_Arab,
            Lang::azj_Latn => Lang::aze_Latn,
            Lang::dik_Latn => Lang::din_Latn,
            Lang::pes_Arab => Lang::fas_Arab,
            Lang::prs_Arab => Lang::fas_Arab,
            Lang::fuv_Latn => Lang::ful_Latn,
            Lang::bos_Latn => Lang::hbs_Latn,
            Lang::hrv_Latn => Lang::hbs_Latn,
            Lang::srp_Cyrl => Lang::hbs_Cyrl,
            Lang::knc_Latn => Lang::kau_Latn,
            Lang::knc_Arab => Lang::kau_Arab,
            Lang::ckb_Arab => Lang::kur_Arab,
            Lang::kmr_Latn => Lang::kur_Latn,
            Lang::ltg_Latn => Lang::lav_Latn,
            Lang::lvs_Latn => Lang::lav_Latn,
            Lang::plt_Latn => Lang::mlg_Latn,
            Lang::khk_Cyrl => Lang::mon_Cyrl,
            Lang::npi_Deva => Lang::nep_Deva,
            Lang::ory_Orya => Lang::ori_Orya,
            Lang::gaz_Latn => Lang::orm_Latn,
            Lang::pbt_Arab => Lang::pus_Arab,
            Lang::quy_Latn => Lang::que_Latn,
            Lang::sqi_Latn => Lang::als_Latn,
            Lang::swh_Latn => Lang::swa_Latn,
            Lang::taq_Tfng => Lang::tmh_Tfng,
            Lang::taq_Latn => Lang::taq_Latn,
            Lang::uzn_Latn => Lang::uzb_Latn,
            Lang::ydd_Hebr => Lang::yid_Hebr,
            Lang::yue_Hant => Lang::zho_Hant,
            _ => *self,
        }
    }

    /// The canonical code that variant codes are collapsed to.
    pub fn collapse(&self) -> (r: Lang)
        ensures
            r == self.macro_of(),
    {
        self.macrolang()
    }

    /// The written form of the code.
    pub open spec fn code_str(self) -> &'static str {
        match self {
            Lang::ace_Arab => "ace_Arab",
            Lang::ace_Latn => "ace_Latn",
            Lang::acm_Arab => "acm_Arab",
            Lang::acq_Arab => "acq_Arab",
            Lang::aeb_Arab => "aeb_Arab",
            Lang::afr_Latn => "afr_Latn",
            Lang::als_Latn => "als_Latn",
            Lang::amh_Ethi => "amh_Ethi",
            Lang::apc_Arab => "apc_Arab",
            Lang::arb_Arab => "arb_Arab",
            Lang::ars_Arab => "ars_Arab",
            Lang::ary_Arab => "ary_Arab",
            Lang::arz_Arab => "arz_Arab",
            Lang::asm_Beng => "asm_Beng",
            Lang::ast_Latn => "ast_Latn",
            Lang::awa_Deva => "awa_Deva",
            Lang::ayr_Latn => "ayr_Latn",
            Lang::azb_Arab => "azb_Arab",
            Lang::azj_Latn => "azj_Latn",
            Lang::bak_Cyrl => "bak_Cyrl",
            Lang::bam_Latn => "bam_Latn",
            Lang::ban_Latn => "ban_Latn",
            Lang::bel_Cyrl => "bel_Cyrl",
            Lang::bem_Latn => "bem_Latn",
            Lang::ben_Beng => "ben_Beng",
            Lang::bho_Deva => "bho_Deva",
            Lang::bjn_Arab => "bjn_Arab",
            Lang::bjn_Latn => "bjn_Latn",
            Lang::bod_Tibt => "bod_Tibt",
            Lang::bos_Latn => "bos_Latn",
            Lang::bug_Latn => "bug_Latn",
            Lang::bul_Cyrl => "bul_Cyrl",
            Lang::cat_Latn => "cat_Latn",
            Lang::ceb_Latn => "ceb_Latn",
            Lang::ces_Latn => "ces_Latn",
            Lang::cjk_Latn => "cjk_Latn",
            Lang::ckb_Arab => "ckb_Arab",
            Lang::cmn_Hans => "cmn_Hans",
            Lang::cmn_Hant => "cmn_Hant",
            Lang::crh_Latn => "crh_Latn",
            Lang::cym_Latn => "cym_Latn",
            Lang::dan_Latn => "dan_Latn",
            Lang::deu_Latn => "deu_Latn",
            Lang::dik_Latn => "dik_Latn",
            Lang::dyu_Latn => "dyu_Latn",
            Lang::dzo_Tibt => "dzo_Tibt",
            Lang::ekk_Latn => "ekk_Latn",
            Lang::ell_Grek => "ell_Grek",
            Lang::eng_Latn => "eng_Latn",
            Lang::epo_Latn => "epo_Latn",
            Lang::eus_Latn => "eus_Latn",
            Lang::ewe_Latn => "ewe_Latn",
            Lang::fao_Latn => "fao_Latn",
            Lang::fij_Latn => "fij_Latn",
            Lang::fil_Latn => "fil_Latn",
            Lang::fin_Latn => "fin_Latn",
            Lang::fon_Latn => "fon_Latn",
            Lang::fra_Latn => "fra_Latn",
            Lang::fur_Latn => "fur_Latn",
            Lang::fuv_Latn => "fuv_Latn",
            Lang::gaz_Latn => "gaz_Latn",
            Lang::gla_Latn => "gla_Latn",
            Lang::gle_Latn => "gle_Latn",
            Lang::glg_Latn => "glg_Latn",
            Lang::gug_Latn => "gug_Latn",
            Lang::guj_Gujr => "guj_Gujr",
            Lang::hat_Latn => "hat_Latn",
            Lang::hau_Latn => "hau_Latn",
            Lang::heb_Hebr => "heb_Hebr",
            Lang::hin_Deva => "hin_Deva",
            Lang::hne_Deva => "hne_Deva",
            Lang::hrv_Latn => "hrv_Latn",
            Lang::hun_Latn => "hun_Latn",
            Lang::hye_Armn => "hye_Armn",
            Lang::ibo_Latn => "ibo_Latn",
            Lang::ilo_Latn => "ilo_Latn",
            Lang::ind_Latn => "ind_Latn",
            Lang::isl_Latn => "isl_Latn",
            Lang::ita_Latn => "ita_Latn",
            Lang::jav_Latn => "jav_Latn",
            Lang::jpn_Jpan => "jpn_Jpan",
            Lang::kab_Latn => "kab_Latn",
            Lang::kac_Latn => "kac_Latn",
            Lang::kam_Latn => "kam_Latn",
            Lang::kan_Knda => "kan_Knda",
            Lang::kas_Arab => "kas_Arab",
            Lang::kas_Deva => "kas_Deva",
            Lang::kat_Geor => "kat_Geor",
            Lang::kaz_Cyrl => "kaz_Cyrl",
            Lang::kbp_Latn => "kbp_Latn",
            Lang::kea_Latn => "kea_Latn",
            Lang::khk_Cyrl => "khk_Cyrl",
            Lang::khm_Khmr => "khm_Khmr",
            Lang::kik_Latn => "kik_Latn",
            Lang::kin_Latn => "kin_Latn",
            Lang::kir_Cyrl => "kir_Cyrl",
            Lang::kmb_Latn => "kmb_Latn",
            Lang::kmr_Latn => "kmr_Latn",
            Lang::knc_Arab => "knc_Arab",
            Lang::knc_Latn => "knc_Latn",
            Lang::kor_Hang => "kor_Hang",
            Lang::ktu_Latn => "ktu_Latn",
            Lang::lao_Laoo => "lao_Laoo",
            Lang::lij_Latn => "lij_Latn",
            Lang::lim_Latn => "lim_Latn",
            Lang::lin_Latn => "lin_Latn",
            Lang::lit_Latn => "lit_Latn",
            Lang::lmo_Latn => "lmo_Latn",
            Lang::ltg_Latn => "ltg_Latn",
            Lang::ltz_Latn => "ltz_Latn",
            Lang::lua_Latn => "lua_Latn",
            Lang::lug_Latn => "lug_Latn",
            Lang::luo_Latn => "luo_Latn",
            Lang::lus_Latn => "lus_Latn",
            Lang::lvs_Latn => "lvs_Latn",
            Lang::mag_Deva => "mag_Deva",
            Lang::mai_Deva => "mai_Deva",
            Lang::mal_Mlym => "mal_Mlym",
            Lang::mar_Deva => "mar_Deva",
            Lang::min_Latn => "min_Latn",
            Lang::mkd_Cyrl => "mkd_Cyrl",
            Lang::mlt_Latn => "mlt_Latn",
            Lang::mni_Beng => "mni_Beng",
            Lang::mos_Latn => "mos_Latn",
            Lang::mri_Latn => "mri_Latn",
            Lang::mya_Mymr => "mya_Mymr",
            Lang::nld_Latn => "nld_Latn",
            Lang::nno_Latn => "nno_Latn",
            Lang::nob_Latn => "nob_Latn",
            Lang::npi_Deva => "npi_Deva",
            Lang::nso_Latn => "nso_Latn",
            Lang::nus_Latn => "nus_Latn",
            Lang::nya_Latn => "nya_Latn",
            Lang::oci_Latn => "oci_Latn",
            Lang::ory_Orya => "ory_Orya",
            Lang::pag_Latn => "pag_Latn",
            Lang::pan_Guru => "pan_Guru",
            Lang::pap_Latn => "pap_Latn",
            Lang::pbt_Arab => "pbt_Arab",
            Lang::pes_Arab => "pes_Arab",
            Lang::plt_Latn => "plt_Latn",
            Lang::pol_Latn => "pol_Latn",
            Lang::por_Latn => "por_Latn",
            Lang::prs_Arab => "prs_Arab",
            Lang::quy_Latn => "quy_Latn",
            Lang::ron_Latn => "ron_Latn",
            Lang::run_Latn => "run_Latn",
            Lang::rus_Cyrl => "rus_Cyrl",
            Lang::sag_Latn => "sag_Latn",
            Lang::san_Deva => "san_Deva",
            Lang::sat_Olck => "sat_Olck",
            Lang::scn_Latn => "scn_Latn",
            Lang::shn_Mymr => "shn_Mymr",
            Lang::sin_Sinh => "sin_Sinh",
            Lang::slk_Latn => "slk_Latn",
            Lang::slv_Latn => "slv_Latn",
            Lang::smo_Latn => "smo_Latn",
            Lang::sna_Latn => "sna_Latn",
            Lang::snd_Arab => "snd_Arab",
            Lang::som_Latn => "som_Latn",
            Lang::sot_Latn => "sot_Latn",
            Lang::spa_Latn => "spa_Latn",
            Lang::srd_Latn => "srd_Latn",
            Lang::srp_Cyrl => "srp_Cyrl",
            Lang::ssw_Latn => "ssw_Latn",
            Lang::sun_Latn => "sun_Latn",
            Lang::swe_Latn => "swe_Latn",
            Lang::swh_Latn => "swh_Latn",
            Lang::szl_Latn => "szl_Latn",
            Lang::tam_Taml => "tam_Taml",
            Lang::taq_Latn => "taq_Latn",
            Lang::taq_Tfng => "taq_Tfng",
            Lang::tat_Cyrl => "tat_Cyrl",
            Lang::tel_Telu => "tel_Telu",
            Lang::tgk_Cyrl => "tgk_Cyrl",
            Lang::tha_Thai => "tha_Thai",
            Lang::tir_Ethi => "tir_Ethi",
            Lang::tpi_Latn => "tpi_Latn",
            Lang::tsn_Latn => "tsn_Latn",
            Lang::tso_Latn => "tso_Latn",
            Lang::tuk_Latn => "tuk_Latn",
            Lang::tum_Latn => "tum_Latn",
            Lang::tur_Latn => "tur_Latn",
            Lang::twi_Latn => "twi_Latn",
            Lang::uig_Arab => "uig_Arab",
            Lang::ukr_Cyrl => "ukr_Cyrl",
            Lang::umb_Latn => "umb_Latn",
            Lang::urd_Arab => "urd_Arab",
            Lang::uzn_Latn => "uzn_Latn",
            Lang::vec_Latn => "vec_Latn",
            Lang::vie_Latn => "vie_Latn",
            Lang::war_Latn => "war_Latn",
            Lang::wol_Latn => "wol_Latn",
            Lang::xho_Latn => "xho_Latn",
            Lang::ydd_Hebr => "ydd_Hebr",
            Lang::yor_Latn => "yor_Latn",
            Lang::yue_Hant => "yue_Hant",
            Lang::zgh_Tfng => "zgh_Tfng",
            Lang::zsm_Latn => "zsm_Latn",
            Lang::zul_Latn => "zul_Latn",
            Lang::und => "und",
            Lang::zxx => "zxx",
            Lang::aka_Latn => "aka_Latn",
            Lang::aym_Latn => "aym_Latn",
            Lang::aze_Arab => "aze_Arab",
            Lang::aze_Latn => "aze_Latn",
            Lang::din_Latn => "din_Latn",
            Lang::fas_Arab => "fas_Arab",
            Lang::ful_Latn => "ful_Latn",
            Lang::hbs_Cyrl => "hbs_Cyrl",
            Lang::hbs_Latn => "hbs_Latn",
            Lang::kau_Arab => "kau_Arab",
            Lang::kau_Latn => "kau_Latn",
            Lang::kur_Arab => "kur_Arab",
            Lang::kur_Latn => "kur_Latn",
            Lang::lav_Latn => "lav_Latn",
            Lang::mlg_Latn => "mlg_Latn",
            Lang::mon_Cyrl => "mon_Cyrl",
            Lang::nep_Deva => "nep_Deva",
            Lang::ori_Orya => "ori_Orya",
            Lang::orm_Latn => "orm_Latn",
            Lang::pus_Arab => "pus_Arab",
            Lang::que_Latn => "que_Latn",
            Lang::sqi_Latn => "sqi_Latn",
            Lang::swa_Latn => "swa_Latn",
            Lang::tmh_Latn => "tmh_Latn",
            Lang::tmh_Tfng => "tmh_Tfng",
            Lang::uzb_Latn => "uzb_Latn",
            Lang::yid_Hebr => "yid_Hebr",
            Lang::zho_Hant => "zho_Hant",
        }
    }

    /// The written form of the code, such as `spa_Latn`.
    pub fn code(&self) -> (r: &'static str)
        ensures
            r == self.code_str(),
    {
        match self {
            Lang::ace_Arab => "ace_Arab",
            Lang::ace_Latn => "ace_Latn",
            Lang::acm_Arab => "acm_Arab",
            Lang::acq_Arab => "acq_Arab",
            Lang::aeb_Arab => "aeb_Arab",
            Lang::afr_Latn => "afr_Latn",
            Lang::als_Latn => "als_Latn",
            Lang::amh_Ethi => "amh_Ethi",
            Lang::apc_Arab => "apc_Arab",
            Lang::arb_Arab => "arb_Arab",
            Lang::ars_Arab => "ars_Arab",
            Lang::ary_Arab => "ary_Arab",
            Lang::arz_Arab => "arz_Arab",
            Lang::asm_Beng => "asm_Beng",
            Lang::ast_Latn => "ast_Latn",
            Lang::awa_Deva => "awa_Deva",
            Lang::ayr_Latn => "ayr_Latn",
            Lang::azb_Arab => "azb_Arab",
            Lang::azj_Latn => "azj_Latn",
            Lang::bak_Cyrl => "bak_Cyrl",
            Lang::bam_Latn => "bam_Latn",
            Lang::ban_Latn => "ban_Latn",
            Lang::bel_Cyrl => "bel_Cyrl",
            Lang::bem_Latn => "bem_Latn",
            Lang::ben_Beng => "ben_Beng",
            Lang::bho_Deva => "bho_Deva",
            Lang::bjn_Arab => "bjn_Arab",
            Lang::bjn_Latn => "bjn_Latn",
            Lang::bod_Tibt => "bod_Tibt",
            Lang::bos_Latn => "bos_Latn",
            Lang::bug_Latn => "bug_Latn",
            Lang::bul_Cyrl => "bul_Cyrl",
            Lang::cat_Latn => "cat_Latn",
            Lang::ceb_Latn => "ceb_Latn",
            Lang::ces_Latn => "ces_Latn",
            Lang::cjk_Latn => "cjk_Latn",
            Lang::ckb_Arab => "ckb_Arab",
            Lang::cmn_Hans => "cmn_Hans",
            Lang::cmn_Hant => "cmn_Hant",
            Lang::crh_Latn => "crh_Latn",
            Lang::cym_Latn => "cym_Latn",
            Lang::dan_Latn => "dan_Latn",
            Lang::deu_Latn => "deu_Latn",
            Lang::dik_Latn => "dik_Latn",
            Lang::dyu_Latn => "dyu_Latn",
            Lang::dzo_Tibt => "dzo_Tibt",
            Lang::ekk_Latn => "ekk_Latn",
            Lang::ell_Grek => "ell_Grek",
            Lang::eng_Latn => "eng_Latn",
            Lang::epo_Latn => "epo_Latn",
            Lang::eus_Latn => "eus_Latn",
            Lang::ewe_Latn => "ewe_Latn",
            Lang::fao_Latn => "fao_Latn",
            Lang::fij_Latn => "fij_Latn",
            Lang::fil_Latn => "fil_Latn",
            Lang::fin_Latn => "fin_Latn",
            Lang::fon_Latn => "fon_Latn",
            Lang::fra_Latn => "fra_Latn",
            Lang::fur_Latn => "fur_Latn",
            Lang::fuv_Latn => "fuv_Latn",
            Lang::gaz_Latn => "gaz_Latn",
            Lang::gla_Latn => "gla_Latn",
            Lang::gle_Latn => "gle_Latn",
            Lang::glg_Latn => "glg_Latn",
            Lang::gug_Latn => "gug_Latn",
            Lang::guj_Gujr => "guj_Gujr",
            Lang::hat_Latn => "hat_Latn",
            Lang::hau_Latn => "hau_Latn",
            Lang::heb_Hebr => "heb_Hebr",
            Lang::hin_Deva => "hin_Deva",
            Lang::hne_Deva => "hne_Deva",
            Lang::hrv_Latn => "hrv_Latn",
            Lang::hun_Latn => "hun_Latn",
            Lang::hye_Armn => "hye_Armn",
            Lang::ibo_Latn => "ibo_Latn",
            Lang::ilo_Latn => "ilo_Latn",
            Lang::ind_Latn => "ind_Latn",
            Lang::isl_Latn => "isl_Latn",
            Lang::ita_Latn => "ita_Latn",
            Lang::jav_Latn => "jav_Latn",
            Lang::jpn_Jpan => "jpn_Jpan",
            Lang::kab_Latn => "kab_Latn",
            Lang::kac_Latn => "kac_Latn",
            Lang::kam_Latn => "kam_Latn",
            Lang::kan_Knda => "kan_Knda",
            Lang::kas_Arab => "kas_Arab",
            Lang::kas_Deva => "kas_Deva",
            Lang::kat_Geor => "kat_Geor",
            Lang::kaz_Cyrl => "kaz_Cyrl",
            Lang::kbp_Latn => "kbp_Latn",
            Lang::kea_Latn => "kea_Latn",
            Lang::khk_Cyrl => "khk_Cyrl",
            Lang::khm_Khmr => "khm_Khmr",
            Lang::kik_Latn => "kik_Latn",
            Lang::kin_Latn => "kin_Latn",
            Lang::kir_Cyrl => "kir_Cyrl",
            Lang::kmb_Latn => "kmb_Latn",
            Lang::kmr_Latn => "kmr_Latn",
            Lang::knc_Arab => "knc_Arab",
            Lang::knc_Latn => "knc_Latn",
            Lang::kor_Hang => "kor_Hang",
            Lang::ktu_Latn => "ktu_Latn",
            Lang::lao_Laoo => "lao_Laoo",
            Lang::lij_Latn => "lij_Latn",
            Lang::lim_Latn => "lim_Latn",
            Lang::lin_Latn => "lin_Latn",
            Lang::lit_Latn => "lit_Latn",
            Lang::lmo_Latn => "lmo_Latn",
            Lang::ltg_Latn => "ltg_Latn",
            Lang::ltz_Latn => "ltz_Latn",
            Lang::lua_Latn => "lua_Latn",
            Lang::lug_Latn => "lug_Latn",
            Lang::luo_Latn => "luo_Latn",
            Lang::lus_Latn => "lus_Latn",
            Lang::lvs_Latn => "lvs_Latn",
            Lang::mag_Deva => "mag_Deva",
            Lang::mai_Deva => "mai_Deva",
            Lang::mal_Mlym => "mal_Mlym",
            Lang::mar_Deva => "mar_Deva",
            Lang::min_Latn => "min_Latn",
            Lang::mkd_Cyrl => "mkd_Cyrl",
            Lang::mlt_Latn => "mlt_Latn",
            Lang::mni_Beng => "mni_Beng",
            Lang::mos_Latn => "mos_Latn",
            Lang::mri_Latn => "mri_Latn",
            Lang::mya_Mymr => "mya_Mymr",
            Lang::nld_Latn => "nld_Latn",
            Lang::nno_Latn => "nno_Latn",
            Lang::nob_Latn => "nob_Latn",
            Lang::npi_Deva => "npi_Deva",
            Lang::nso_Latn => "nso_Latn",
            Lang::nus_Latn => "nus_Latn",
            Lang::nya_Latn => "nya_Latn",
            Lang::oci_Latn => "oci_Latn",
            Lang::ory_Orya => "ory_Orya",
            Lang::pag_Latn => "pag_Latn",
            Lang::pan_Guru => "pan_Guru",
            Lang::pap_Latn => "pap_Latn",
            Lang::pbt_Arab => "pbt_Arab",
            Lang::pes_Arab => "pes_Arab",
            Lang::plt_Latn => "plt_Latn",
            Lang::pol_Latn => "pol_Latn",
            Lang::por_Latn => "por_Latn",
            Lang::prs_Arab => "prs_Arab",
            Lang::quy_Latn => "quy_Latn",
            Lang::ron_Latn => "ron_Latn",
            Lang::run_Latn => "run_Latn",
            Lang::rus_Cyrl => "rus_Cyrl",
            Lang::sag_Latn => "sag_Latn",
            Lang::san_Deva => "san_Deva",
            Lang::sat_Olck => "sat_Olck",
            Lang::scn_Latn => "scn_Latn",
            Lang::shn_Mymr => "shn_Mymr",
            Lang::sin_Sinh => "sin_Sinh",
            Lang::slk_Latn => "slk_Latn",
            Lang::slv_Latn => "slv_Latn",
            Lang::smo_Latn => "smo_Latn",
            Lang::sna_Latn => "sna_Latn",
            Lang::snd_Arab => "snd_Arab",
            Lang::som_Latn => "som_Latn",
            Lang::sot_Latn => "sot_Latn",
            Lang::spa_Latn => "spa_Latn",
            Lang::srd_Latn => "srd_Latn",
            Lang::srp_Cyrl => "srp_Cyrl",
            Lang::ssw_Latn => "ssw_Latn",
            Lang::sun_Latn => "sun_Latn",
            Lang::swe_Latn => "swe_Latn",
            Lang::swh_Latn => "swh_Latn",
            Lang::szl_Latn => "szl_Latn",
            Lang::tam_Taml => "tam_Taml",
            Lang::taq_Latn => "taq_Latn",
            Lang::taq_Tfng => "taq_Tfng",
            Lang::tat_Cyrl => "tat_Cyrl",
            Lang::tel_Telu => "tel_Telu",
            Lang::tgk_Cyrl => "tgk_Cyrl",
            Lang::tha_Thai => "tha_Thai",
            Lang::tir_Ethi => "tir_Ethi",
            Lang::tpi_Latn => "tpi_Latn",
            Lang::tsn_Latn => "tsn_Latn",
            Lang::tso_Latn => "tso_Latn",
            Lang::tuk_Latn => "tuk_Latn",
            Lang::tum_Latn => "tum_Latn",
            Lang::tur_Latn => "tur_Latn",
            Lang::twi_Latn => "twi_Latn",
            Lang::uig_Arab => "uig_Arab",
            Lang::ukr_Cyrl => "ukr_Cyrl",
            Lang::umb_Latn => "umb_Latn",
            Lang::urd_Arab => "urd_Arab",
            Lang::uzn_Latn => "uzn_Latn",
            Lang::vec_Latn => "vec_Latn",
            Lang::vie_Latn => "vie_Latn",
            Lang::war_Latn => "war_Latn",
            Lang::wol_Latn => "wol_Latn",
            Lang::xho_Latn => "xho_Latn",
            Lang::ydd_Hebr => "ydd_Hebr",
            Lang::yor_Latn => "yor_Latn",
            Lang::yue_Hant => "yue_Hant",
            Lang::zgh_Tfng => "zgh_Tfng",
            Lang::zsm_Latn => "zsm_Latn",
            Lang::zul_Latn => "zul_Latn",
            Lang::und => "und",
            Lang::zxx => "zxx",
            Lang::aka_Latn => "aka_Latn",
            Lang::aym_Latn => "aym_Latn",
            Lang::aze_Arab => "aze_Arab",
            Lang::aze_Latn => "aze_Latn",
            Lang::din_Latn => "din_Latn",
            Lang::fas_Arab => "fas_Arab",
            Lang::ful_Latn => "ful_Latn",
            Lang::hbs_Cyrl => "hbs_Cyrl",
            Lang::hbs_Latn => "hbs_Latn",
            Lang::kau_Arab => "kau_Arab",
            Lang::kau_Latn => "kau_Latn",
            Lang::kur_Arab => "kur_Arab",
            Lang::kur_Latn => "kur_Latn",
            Lang::lav_Latn => "lav_Latn",
            Lang::mlg_Latn => "mlg_Latn",
            Lang::mon_Cyrl => "mon_Cyrl",
            Lang::nep_Deva => "nep_Deva",
            Lang::ori_Orya => "ori_Orya",
            Lang::orm_Latn => "orm_Latn",
            Lang::pus_Arab => "pus_Arab",
            Lang::que_Latn => "que_Latn",
            Lang::sqi_Latn => "sqi_Latn",
            Lang::swa_Latn => "swa_Latn",
            Lang::tmh_Latn => "tmh_Latn",
            Lang::tmh_Tfng => "tmh_Tfng",
            Lang::uzb_Latn => "uzb_Latn",
            Lang::yid_Hebr => "yid_Hebr",
            Lang::zho_Hant => "zho_Hant",
        }
    }
}

/// A code found among the first `n` languages is found among more.
proof fn lemma_code_lookup_found(s: Seq<char>, n: nat, m: nat)
    requires
        n <= m,
        code_lookup(s, n) is Some,
    ensures
        code_lookup(s, m) == code_lookup(s, n),
    decreases m,
{
    if m > n {
        lemma_code_lookup_found(s, n, (m - 1) as nat);
    }
}

/// Collapsing is idempotent: a collapsed code collapses to itself.
pub proof fn lemma_collapse_idempotent(l: Lang)
    ensures
        l.macro_of().macro_of() == l.macro_of(),
{
}

/// The language with index `i`.
pub open spec fn lang_at(i: int) -> Lang {
    match Lang::from_id(i as usize) {
        Some(l) => l,
        None => Lang::und,
    }
}

/// The first of the first `n` languages whose written code is `s`.
pub open spec fn code_lookup(s: Seq<char>, n: nat) -> Option<Lang>
    decreases n,
{
    if n == 0 {
        None
    } else {
        match code_lookup(s, (n - 1) as nat) {
            Some(l) => Some(l),
            None => if lang_at(n - 1).code_str()@ == s {
                Some(lang_at(n - 1))
            } else {
                None
            },
        }
    }
}

/// Whether two character vectors hold the same characters.
pub fn same_chars(a: &Vec<char>, b: &Vec<char>) -> (r: bool)
    ensures
        r == (a@ == b@),
{
    if a.len() != b.len() {
        return false;
    }
    let mut i: usize = 0;
    while i < a.len()
        invariant
            i <= a.len(),
            a.len() == b.len(),
            forall|k: int| 0 <= k < i ==> a@[k] == b@[k],
        decreases a.len() - i,
    {
        if a[i] != b[i] {
            return false;
        }
        i = i + 1;
    }
    assert(a@ =~= b@);
    true
}

impl Lang {
    /// The code whose written form is `s`, if any.
    pub fn from_code_chars(s: &Vec<char>) -> (r: Option<Lang>)
        ensures
            r == code_lookup(s@, LANG_COUNT as nat),
            r matches Some(l) ==> l.code_str()@ == s@,
            r is None ==> forall|l: Lang| (#[trigger] l.code_str())@ != s@,
    {
        let mut i: usize = 0;
        while i < LANG_COUNT
            invariant
                i <= LANG_COUNT,
                code_lookup(s@, i as nat) is None,
                forall|l: Lang| l.id() < i ==> (#[trigger] l.code_str())@ != s@,
            decreases LANG_COUNT - i,
        {
            proof {
                Lang::lemma_from_id(i);
            }
            let l = match Lang::from_index(i) {
                Some(l) => l,
                None => Lang::und,
            };
            let c = chars_of(l.code());
            if same_chars(&c, s) {
                proof {
                    assert(code_lookup(s@, (i + 1) as nat) == Some(l));
                    lemma_code_lookup_found(s@, (i + 1) as nat, LANG_COUNT as nat);
                }
                return Some(l);
            }
            proof {
                assert forall|m: Lang| m.id() < i + 1 implies (#[trigger] m.code_str())@ != s@ by {
                    m.lemma_id();
                    if m.id() == i {
                        assert(Lang::from_id(i) == Some(m));
                    }
                }
            }
            i = i + 1;
        }
        proof {
            assert forall|l: Lang| (#[trigger] l.code_str())@ != s@ by {
                l.lemma_id();
            }
        }
        None
    }

    /// The code whose written form is `s`, such as `spa_Latn`, if any.
    pub fn from_code(s: &str) -> (r: Option<Lang>)
        ensures
            r == code_lookup(s@, LANG_COUNT as nat),
            r matches Some(l) ==> l.code_str()@ == s@,
            r is None ==> forall|l: Lang| (#[trigger] l.code_str())@ != s@,
    {
        let c = chars_of(s);
        Lang::from_code_chars(&c)
    }
}

} // verus!
