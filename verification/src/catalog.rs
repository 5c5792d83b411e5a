//! The static reference catalog: known database codes, the parameter
//! requirement matrix, request limits, and the status/message lookup table.
//! Validation does not consult it — unknown database codes stay accepted for
//! forward compatibility — but tooling layered on top uses it to pre-validate
//! and to answer discovery queries.

use vstd::prelude::*;

use crate::text::ci_equal;

verus! {

/// One known database entry.
#[derive(Debug, PartialEq, Eq)]
pub struct DatabaseEntry {
    /// Statistics category label, in Japanese.
    pub category_ja: String,
    /// Database code.
    pub code: String,
    /// Database name label, in Japanese.
    pub name_ja: String,
}

/// Requirement level of a parameter for one endpoint.
#[derive(Debug, Clone, Copy, PartialEq, Eq, Structural)]
pub enum EndpointRequirement {
    /// The parameter is required.
    Required,
    /// The parameter is optional.
    Optional,
    /// The parameter is unsupported for the endpoint.
    Unsupported,
}

/// The normalized requirement text of an [`EndpointRequirement`].
pub open spec fn requirement_text(r: EndpointRequirement) -> Seq<char> {
    match r {
        EndpointRequirement::Required => "required"@,
        EndpointRequirement::Optional => "optional"@,
        EndpointRequirement::Unsupported => "unsupported"@,
    }
}

impl EndpointRequirement {
    /// Returns the normalized requirement text.
    pub fn as_str(self) -> (r: &'static str)
        ensures
            r@ == requirement_text(self),
    {
        match self {
            EndpointRequirement::Required => "required",
            EndpointRequirement::Optional => "optional",
            EndpointRequirement::Unsupported => "unsupported",
        }
    }
}

/// One parameter row of the requirement matrix.
#[derive(Debug, PartialEq, Eq)]
pub struct ParameterSpec {
    /// Parameter name in the manual's notation.
    pub name: String,
    /// Purpose summary, in Japanese.
    pub description_ja: String,
    /// Allowed-value summary.
    pub allowed_values: String,
    /// Requirement level for the by-code endpoint.
    pub code_api: EndpointRequirement,
    /// Requirement level for the by-layer endpoint.
    pub layer_api: EndpointRequirement,
    /// Requirement level for the metadata endpoint.
    pub metadata_api: EndpointRequirement,
    /// Additional notes for this parameter.
    pub notes: Vec<String>,
}

/// One request limit.
#[derive(Debug, PartialEq, Eq)]
pub struct RequestLimit {
    /// The endpoints the limit applies to, comma-separated.
    pub api_scope: String,
    /// What the limit counts.
    pub target: String,
    /// The maximum value allowed.
    pub max_value: u32,
    /// What happens when the limit is exceeded.
    pub overflow_behavior: String,
}

/// One status/message lookup row.
#[derive(Debug, PartialEq, Eq)]
pub struct MessageCodeSpec {
    /// Server `STATUS` value.
    pub status: u16,
    /// Server `MESSAGEID` value.
    pub message_id: String,
    /// Server `MESSAGE` value.
    pub message: String,
    /// Notes from the lookup table.
    pub note: String,
}

/// The whole reference catalog.
#[derive(Debug)]
pub struct CatalogSnapshot {
    /// Source document this snapshot was curated from.
    pub source_document: String,
    /// Source publication date.
    pub source_date: String,
    /// Global parameter notes shared across endpoints.
    pub general_notes: Vec<String>,
    /// Supported output format codes.
    pub format_codes: Vec<String>,
    /// Supported language codes.
    pub language_codes: Vec<String>,
    /// Supported frequency codes for the by-layer endpoint.
    pub frequency_codes: Vec<String>,
    /// Known database entries.
    pub databases: Vec<DatabaseEntry>,
    /// The parameter requirement matrix.
    pub parameters: Vec<ParameterSpec>,
    /// Request limits and overflow behavior.
    pub limits: Vec<RequestLimit>,
    /// Layer selection rules.
    pub layer_rules: Vec<String>,
    /// Status/message lookup rows.
    pub messages: Vec<MessageCodeSpec>,
}

fn push_str(v: &mut Vec<String>, s: &str)
    ensures
        final(v)@.len() == old(v)@.len() + 1,
{
    v.push(String::from_str(s));
}

fn make_db(category_ja: &str, code: &str, name_ja: &str) -> (r: DatabaseEntry)
    ensures
        r.code@ == code@,
{
    DatabaseEntry {
        category_ja: String::from_str(category_ja),
        code: String::from_str(code),
        name_ja: String::from_str(name_ja),
    }
}

fn make_message(status: u16, message_id: &str, message: &str, note: &str) -> (r:
    MessageCodeSpec)
    ensures
        r.status == status,
        r.message_id@ == message_id@,
{
    MessageCodeSpec {
        status,
        message_id: String::from_str(message_id),
        message: String::from_str(message),
        note: String::from_str(note),
    }
}

/// Global parameter notes shared across endpoints.
pub fn general_notes() -> (r: Vec<String>)
    ensures
        r@.len() == 3,
{
    let mut v: Vec<String> = Vec::new();
    push_str(&mut v, "以下の文字および全角文字は指定不可: < > ” ! | \\ ; '");
    push_str(&mut v, "パラメータ名および値は大文字小文字を区別しません。");
    push_str(&mut v, "複数パラメータの並び順は順不同です。");
    v
}

/// Supported output format codes.
pub fn format_codes() -> (r: Vec<String>)
    ensures
        r@.len() == 2,
{
    let mut v: Vec<String> = Vec::new();
    push_str(&mut v, "JSON");
    push_str(&mut v, "CSV");
    v
}

/// Supported language codes.
pub fn language_codes() -> (r: Vec<String>)
    ensures
        r@.len() == 2,
{
    let mut v: Vec<String> = Vec::new();
    push_str(&mut v, "JP");
    push_str(&mut v, "EN");
    v
}

/// Supported frequency codes for the by-layer endpoint.
pub fn frequency_codes() -> (r: Vec<String>)
    ensures
        r@.len() == 8,
{
    let mut v: Vec<String> = Vec::new();
    push_str(&mut v, "CY");
    push_str(&mut v, "FY");
    push_str(&mut v, "CH");
    push_str(&mut v, "FH");
    push_str(&mut v, "Q");
    push_str(&mut v, "M");
    push_str(&mut v, "W");
    push_str(&mut v, "D");
    v
}

/// Layer selection rules.
pub fn layer_rules() -> (r: Vec<String>)
    ensures
        r@.len() == 4,
{
    let mut v: Vec<String> = Vec::new();
    push_str(&mut v, "階層1の指定は必須。");
    push_str(&mut v, "階層2〜5は任意。");
    push_str(&mut v, "複数階層はカンマ区切りで指定。");
    push_str(&mut v, "* は当該階層を全件対象とするワイルドカード。");
    v
}

/// The database codes of the catalog, in table order.
pub open spec fn catalog_db_codes() -> Seq<Seq<char>> {
    seq![
        "IR01"@,
        "IR02"@,
        "IR03"@,
        "IR04"@,
        "FM01"@,
        "FM02"@,
        "FM03"@,
        "FM04"@,
        "FM05"@,
        "FM06"@,
        "FM07"@,
        "FM08"@,
        "FM09"@,
        "PS01"@,
        "PS02"@,
        "MD01"@,
        "MD02"@,
        "MD03"@,
        "MD04"@,
        "MD05"@,
        "MD06"@,
        "MD07"@,
        "MD08"@,
        "MD09"@,
        "MD10"@,
        "MD11"@,
        "MD12"@,
        "MD13"@,
        "MD14"@,
        "LA01"@,
        "LA02"@,
        "LA03"@,
        "LA04"@,
        "LA05"@,
        "BS01"@,
        "BS02"@,
        "FF"@,
        "OB01"@,
        "OB02"@,
        "CO"@,
        "PR01"@,
        "PR02"@,
        "PR03"@,
        "PR04"@,
        "PF01"@,
        "PF02"@,
        "BP01"@,
        "BIS"@,
        "DER"@,
        "OT"@,
    ]
}

/// The catalog's database entry at one table position.
fn db_entry(i: usize) -> (r: DatabaseEntry)
    requires
        i < 50,
    ensures
        r.code@ == catalog_db_codes()[i as int],
{
    if i == 0 {
        make_db("金利（預金・貸出関連）", "IR01", "基準割引率および基準貸付利率（従来「公定歩合」として掲載されていたもの）の推移")
    } else if i == 1 {
        make_db("金利（預金・貸出関連）", "IR02", "預金種類別店頭表示金利の平均年利率等")
    } else if i == 2 {
        make_db("金利（預金・貸出関連）", "IR03", "定期預金の預入期間別平均金利")
    } else if i == 3 {
        make_db("金利（預金・貸出関連）", "IR04", "貸出約定平均金利")
    } else if i == 4 {
        make_db("マーケット関連", "FM01", "無担保コールＯ／Ｎ物レート（毎営業日）")
    } else if i == 5 {
        make_db("マーケット関連", "FM02", "短期金融市場金利")
    } else if i == 6 {
        make_db("マーケット関連", "FM03", "短期金融市場残高")
    } else if i == 7 {
        make_db("マーケット関連", "FM04", "コール市場残高")
    } else if i == 8 {
        make_db("マーケット関連", "FM05", "公社債発行・償還および現存額")
    } else if i == 9 {
        make_db("マーケット関連", "FM06", "公社債消化状況（利付国債）")
    } else if i == 10 {
        make_db("マーケット関連", "FM07", "(参考）国債窓口販売額・窓口販売率（2004年1月まで）")
    } else if i == 11 {
        make_db("マーケット関連", "FM08", "外国為替市況")
    } else if i == 12 {
        make_db("マーケット関連", "FM09", "実効為替レート")
    } else if i == 13 {
        make_db("決済関連", "PS01", "各種決済")
    } else if i == 14 {
        make_db("決済関連", "PS02", "フェイルの発生状況")
    } else if i == 15 {
        make_db("預金・マネー・貸出", "MD01", "マネタリーベース")
    } else if i == 16 {
        make_db("預金・マネー・貸出", "MD02", "マネーストック")
    } else if i == 17 {
        make_db("預金・マネー・貸出", "MD03", "マネタリーサーベイ")
    } else if i == 18 {
        make_db("預金・マネー・貸出", "MD04", "(参考) マネーサプライ (M2+CD) 増減と信用面の対応")
    } else if i == 19 {
        make_db("預金・マネー・貸出", "MD05", "通貨流通高")
    } else if i == 20 {
        make_db("預金・マネー・貸出", "MD06", "日銀当座預金増減要因と金融調節（実績）")
    } else if i == 21 {
        make_db("預金・マネー・貸出", "MD07", "準備預金額")
    } else if i == 22 {
        make_db("預金・マネー・貸出", "MD08", "業態別の日銀当座預金残高")
    } else if i == 23 {
        make_db("預金・マネー・貸出", "MD09", "マネタリーベースと日本銀行の取引")
    } else if i == 24 {
        make_db("預金・マネー・貸出", "MD10", "預金者別預金")
    } else if i == 25 {
        make_db("預金・マネー・貸出", "MD11", "預金・現金・貸出金")
    } else if i == 26 {
        make_db("預金・マネー・貸出", "MD12", "都道府県別預金・現金・貸出金")
    } else if i == 27 {
        make_db("預金・マネー・貸出", "MD13", "貸出・預金動向")
    } else if i == 28 {
        make_db("預金・マネー・貸出", "MD14", "定期預金の残高および新規受入高")
    } else if i == 29 {
        make_db("預金・マネー・貸出", "LA01", "貸出先別貸出金")
    } else if i == 30 {
        make_db("預金・マネー・貸出", "LA02", "日本銀行貸出")
    } else if i == 31 {
        make_db("預金・マネー・貸出", "LA03", "その他貸出残高")
    } else if i == 32 {
        make_db("預金・マネー・貸出", "LA04", "コミットメントライン契約額、利用額")
    } else if i == 33 {
        make_db("預金・マネー・貸出", "LA05", "主要銀行貸出動向アンケート調査")
    } else if i == 34 {
        make_db("金融機関バランスシート", "BS01", "日本銀行勘定")
    } else if i == 35 {
        make_db("金融機関バランスシート", "BS02", "民間金融機関の資産・負債")
    } else if i == 36 {
        make_db("資金循環", "FF", "資金循環")
    } else if i == 37 {
        make_db("その他の日本銀行関連", "OB01", "日本銀行の対政府取引")
    } else if i == 38 {
        make_db("その他の日本銀行関連", "OB02", "日本銀行が受入れている担保の残高")
    } else if i == 39 {
        make_db("短観", "CO", "短観")
    } else if i == 40 {
        make_db("物価", "PR01", "企業物価指数")
    } else if i == 41 {
        make_db("物価", "PR02", "企業向けサービス価格指数")
    } else if i == 42 {
        make_db("物価", "PR03", "製造業部門別投入・産出物価指数")
    } else if i == 43 {
        make_db("物価", "PR04", "＜サテライト指数＞最終需要・中間需要物価指数")
    } else if i == 44 {
        make_db("財政関連", "PF01", "財政資金収支")
    } else if i == 45 {
        make_db("財政関連", "PF02", "政府債務")
    } else if i == 46 {
        make_db("国際収支・BIS関連", "BP01", "国際収支統計")
    } else if i == 47 {
        make_db("国際収支・BIS関連", "BIS", "BIS 国際資金取引統計および国際与信統計の日本分集計結果")
    } else if i == 48 {
        make_db("国際収支・BIS関連", "DER", "デリバティブ取引に関する定例市場報告")
    } else if i == 49 {
        make_db("その他", "OT", "その他")
    } else {
        make_db("", "", "")
    }
}

/// The known database entries, in table order; entry `i` carries the code
/// `catalog_db_codes()[i]`.
pub fn databases() -> (r: Vec<DatabaseEntry>)
    ensures
        r@.len() == 50,
        forall|i: int| 0 <= i < 50 ==> (#[trigger] r@[i]).code@ == catalog_db_codes()[i],
{
    let mut v: Vec<DatabaseEntry> = Vec::new();
    for i in 0..50usize
        invariant
            v@.len() == i,
            forall|j: int| 0 <= j < i ==> (#[trigger] v@[j]).code@ == catalog_db_codes()[j],
    {
        v.push(db_entry(i));
    }
    v
}

fn push_parameter(
    v: &mut Vec<ParameterSpec>,
    name: &str,
    description_ja: &str,
    allowed_values: &str,
    code_api: EndpointRequirement,
    layer_api: EndpointRequirement,
    metadata_api: EndpointRequirement,
    notes: Vec<String>,
)
    ensures
        final(v)@.len() == old(v)@.len() + 1,
{
    v.push(
        ParameterSpec {
            name: String::from_str(name),
            description_ja: String::from_str(description_ja),
            allowed_values: String::from_str(allowed_values),
            code_api,
            layer_api,
            metadata_api,
            notes,
        },
    );
}

/// The parameter requirement matrix.
pub fn parameter_specs() -> (r: Vec<ParameterSpec>)
    ensures
        r@.len() == 9,
{
    let mut v: Vec<ParameterSpec> = Vec::new();
    {
        let mut notes: Vec<String> = Vec::new();
        push_str(&mut notes, "エラー時は指定形式にかかわらずJSONでエラー内容を出力。");
        push_parameter(&mut v, "FORMAT", "結果ファイル形式", "JSON, CSV", EndpointRequirement::Optional,
            EndpointRequirement::Optional,
            EndpointRequirement::Optional, notes);
    }
    {
        let mut notes: Vec<String> = Vec::new();
        push_parameter(&mut v, "LANG", "言語", "JP, EN", EndpointRequirement::Optional,
            EndpointRequirement::Optional,
            EndpointRequirement::Optional, notes);
    }
    {
        let mut notes: Vec<String> = Vec::new();
        push_str(&mut notes, "DB名は付録Aを参照。");
        push_parameter(&mut v, "DB", "DB名", "付録AのDBコード", EndpointRequirement::Required,
            EndpointRequirement::Required,
            EndpointRequirement::Required, notes);
    }
    {
        let mut notes: Vec<String> = Vec::new();
        push_str(&mut notes, "データコード（先頭にDB名付き）は不可。");
        push_str(&mut notes, "上限は1250コード。");
        push_parameter(&mut v, "CODE", "系列コード", "系列コード（カンマ区切りで複数指定可、同じ期種のみ指定可）", EndpointRequirement::Required,
            EndpointRequirement::Unsupported,
            EndpointRequirement::Unsupported, notes);
    }
    {
        let mut notes: Vec<String> = Vec::new();
        push_str(&mut notes, "階層1は必須、階層2〜5は任意。");
        push_parameter(&mut v, "LAYER", "階層情報", "階層1〜5をカンマ区切り、ワイルドカード * 指定可", EndpointRequirement::Unsupported,
            EndpointRequirement::Required,
            EndpointRequirement::Unsupported, notes);
    }
    {
        let mut notes: Vec<String> = Vec::new();
        push_str(&mut notes, "週次にはW0〜W6が存在するが指定時はWを利用。");
        push_parameter(&mut v, "FREQUENCY", "期種", "CY, FY, CH, FH, Q, M, W, D", EndpointRequirement::Unsupported,
            EndpointRequirement::Required,
            EndpointRequirement::Unsupported, notes);
    }
    {
        let mut notes: Vec<String> = Vec::new();
        push_str(&mut notes, "開始期未指定時は収録開始期から出力。");
        push_parameter(&mut v, "STARTDATE", "開始期", "CY/FY: YYYY, CH/FH: YYYYHH, Q: YYYYQQ, M/W/D: YYYYMM", EndpointRequirement::Optional,
            EndpointRequirement::Optional,
            EndpointRequirement::Unsupported, notes);
    }
    {
        let mut notes: Vec<String> = Vec::new();
        push_str(&mut notes, "終了期未指定時は収録終了期まで出力。");
        push_parameter(&mut v, "ENDDATE", "終了期", "STARTDATEと同形式", EndpointRequirement::Optional,
            EndpointRequirement::Optional,
            EndpointRequirement::Unsupported, notes);
    }
    {
        let mut notes: Vec<String> = Vec::new();
        push_str(&mut notes, "上限超過時にNEXTPOSITIONと組み合わせて継続取得。");
        push_parameter(&mut v, "STARTPOSITION", "検索開始位置", "1以上の整数", EndpointRequirement::Optional,
            EndpointRequirement::Optional,
            EndpointRequirement::Unsupported, notes);
    }
    v
}

fn push_limit(v: &mut Vec<RequestLimit>, api_scope: &str, target: &str, max_value: u32, overflow_behavior: &str)
    ensures
        final(v)@.len() == old(v)@.len() + 1,
{
    v.push(
        RequestLimit {
            api_scope: String::from_str(api_scope),
            target: String::from_str(target),
            max_value,
            overflow_behavior: String::from_str(overflow_behavior),
        },
    );
}

/// Request limits and overflow behavior.
pub fn request_limits() -> (r: Vec<RequestLimit>)
    ensures
        r@.len() == 3,
{
    let mut v: Vec<RequestLimit> = Vec::new();
    push_limit(&mut v, "getDataLayer", "検索条件で抽出される系列数（期種絞り込み前）", 1250, "上限を超える場合はエラー。出力ファイルは作成されない。");
    push_limit(&mut v, "getDataCode,getDataLayer", "1回のリクエストで検索可能な系列数", 250, "上限まで出力し、続き検索用にNEXTPOSITIONを出力。");
    push_limit(&mut v, "getDataCode,getDataLayer", "1回のリクエストで検索可能なデータ数（系列数×期数）", 60000, "上限まで出力し、続き検索用にNEXTPOSITIONを出力。");
    v
}

/// The message identifiers of the status/message table, in table order.
pub open spec fn catalog_message_ids() -> Seq<Seq<char>> {
    seq![
        "M181000I"@,
        "M181030I"@,
        "M181001E"@,
        "M181002E"@,
        "M181003E"@,
        "M181004E"@,
        "M181005E"@,
        "M181006E"@,
        "M181007E"@,
        "M181008E"@,
        "M181009E"@,
        "M181010E"@,
        "M181011E"@,
        "M181012E"@,
        "M181013E"@,
        "M181014E"@,
        "M181015E"@,
        "M181016E"@,
        "M181017E"@,
        "M181018E"@,
        "M181019E"@,
        "M181020E"@,
        "M181090S"@,
        "M181091S"@,
    ]
}

/// The statuses of the status/message table, in table order.
pub open spec fn catalog_message_statuses() -> Seq<u16> {
    seq![200u16, 200u16, 400u16, 400u16, 400u16, 400u16, 400u16, 400u16, 400u16, 400u16, 400u16, 400u16, 400u16, 400u16, 400u16, 400u16, 400u16, 400u16, 400u16, 400u16, 400u16, 400u16, 500u16, 503u16]
}

/// The status/message row at one table position.
fn message_entry(i: usize) -> (r: MessageCodeSpec)
    requires
        i < 24,
    ensures
        r.status == catalog_message_statuses()[i as int],
        r.message_id@ == catalog_message_ids()[i as int],
{
    if i == 0 {
        make_message(200, "M181000I", "正常に終了しました。", "一部のデータが欠損値の場合も含む。")
    } else if i == 1 {
        make_message(200, "M181030I", "正常に終了しましたが、該当データはありませんでした。", "「該当データなし」は、指定系列・時期が全て収録期間外、または指定全系列が欠損値の場合。")
    } else if i == 2 {
        make_message(400, "M181001E", "Invalid input parameters", "一部の記号（`< > ” ! | \\ ; '`）や全角文字は利用不可。系列コード先頭にDB名を付けた場合（例: `IR01’MADR1Z@D`）も本メッセージ。")
    } else if i == 3 {
        make_message(400, "M181002E", "Invalid language setting", "言語設定が正しくありません。")
    } else if i == 4 {
        make_message(400, "M181003E", "結果ファイル形式が正しくありません。", "-")
    } else if i == 5 {
        make_message(400, "M181004E", "DBが指定されていません。", "-")
    } else if i == 6 {
        make_message(400, "M181005E", "DB名が正しくありません。", "-")
    } else if i == 7 {
        make_message(400, "M181006E", "系列コードが指定されていません。", "-")
    } else if i == 8 {
        make_message(400, "M181007E", "系列コードの数が1250を超えています。", "-")
    } else if i == 9 {
        make_message(400, "M181008E", "指定した開始期が正しくありません。", "-")
    } else if i == 10 {
        make_message(400, "M181009E", "指定した終了期が正しくありません。", "-")
    } else if i == 11 {
        make_message(400, "M181010E", "時期は1850年から2050年までを数値で指定してください。", "-")
    } else if i == 12 {
        make_message(400, "M181011E", "開始期と終了期の順序を正しく指定してください。", "開始期≦終了期で指定。")
    } else if i == 13 {
        make_message(400, "M181012E", "検索開始位置が正しくありません。", "1以上の整数を指定。指定方法は II.4.(2) を参照。")
    } else if i == 14 {
        make_message(400, "M181013E", "指定した系列コードは存在しません。:*番目のコード", "`*` は指定順を表示。")
    } else if i == 15 {
        make_message(400, "M181014E", "指定した系列コードの期種が一致しません。:*番目のコード", "`*` は指定順を表示。")
    } else if i == 16 {
        make_message(400, "M181015E", "指定した開始期の設定形式が期種と一致しません。", "-")
    } else if i == 17 {
        make_message(400, "M181016E", "指定した終了期の設定形式が期種と一致しません。", "-")
    } else if i == 18 {
        make_message(400, "M181017E", "期種が指定されていません。", "-")
    } else if i == 19 {
        make_message(400, "M181018E", "期種が正しくありません。", "-")
    } else if i == 20 {
        make_message(400, "M181019E", "階層情報が指定されていません。", "階層1は必須。階層2〜5は任意。6つ以上は指定不可。")
    } else if i == 21 {
        make_message(400, "M181020E", "階層情報設定が正しくありません。", "正しい指定方法は II.3.(3) を参照。")
    } else if i == 22 {
        make_message(500, "M181090S", "予期しないエラーが発生しました。時間をおいてからやり直してください。", "-")
    } else if i == 23 {
        make_message(503, "M181091S", "データベースにアクセス中にエラーになりました。時間をおいてからやり直してください。", "-")
    } else {
        make_message(0, "", "", "")
    }
}

/// The status/message lookup rows, in table order; row `i` carries the
/// status `catalog_message_statuses()[i]` and the message identifier
/// `catalog_message_ids()[i]`.
pub fn message_codes() -> (r: Vec<MessageCodeSpec>)
    ensures
        r@.len() == 24,
        forall|i: int|
            0 <= i < 24 ==> (#[trigger] r@[i]).status == catalog_message_statuses()[i]
                && r@[i].message_id@ == catalog_message_ids()[i],
{
    let mut v: Vec<MessageCodeSpec> = Vec::new();
    for i in 0..24usize
        invariant
            v@.len() == i,
            forall|j: int|
                0 <= j < i ==> (#[trigger] v@[j]).status == catalog_message_statuses()[j]
                    && v@[j].message_id@ == catalog_message_ids()[j],
    {
        v.push(message_entry(i));
    }
    v
}

/// The whole reference catalog.
pub fn snapshot() -> (r: CatalogSnapshot)
    ensures
        r.databases@.len() == 50,
        r.messages@.len() == 24,
{
    CatalogSnapshot {
        source_document: String::from_str("api_manual.pdf"),
        source_date: String::from_str("2026-02-18"),
        general_notes: general_notes(),
        format_codes: format_codes(),
        language_codes: language_codes(),
        frequency_codes: frequency_codes(),
        databases: databases(),
        parameters: parameter_specs(),
        limits: request_limits(),
        layer_rules: layer_rules(),
        messages: message_codes(),
    }
}

/// First entry whose code matches ASCII case-insensitively.
pub open spec fn spec_find_db(entries: Seq<DatabaseEntry>, code: Seq<char>) -> Option<int>
    decreases entries.len(),
{
    if entries.len() == 0 {
        None
    } else if ci_equal(entries[0].code@, code) {
        Some(0)
    } else {
        match spec_find_db(entries.drop_first(), code) {
            Some(i) => Some(i + 1),
            None => None,
        }
    }
}

proof fn lemma_find_db_skip(entries: Seq<DatabaseEntry>, code: Seq<char>, i: int)
    requires
        0 <= i <= entries.len(),
        forall|j: int| 0 <= j < i ==> !ci_equal((#[trigger] entries[j]).code@, code),
    ensures
        spec_find_db(entries, code) == match spec_find_db(entries.skip(i), code) {
            Some(j) => Some(i + j),
            None => None::<int>,
        },
    decreases i,
{
    if i == 0 {
        assert(entries.skip(0) =~= entries);
    } else {
        assert(!ci_equal(entries[0].code@, code));
        assert(forall|j: int|
            0 <= j < i - 1 ==> !ci_equal((#[trigger] entries.drop_first()[j]).code@, code)) by {
            assert(forall|j: int|
                0 <= j < i - 1 ==> entries.drop_first()[j] == #[trigger] entries[j + 1]);
        }
        lemma_find_db_skip(entries.drop_first(), code, i - 1);
        assert(entries.drop_first().skip(i - 1) =~= entries.skip(i));
    }
}

/// Finds the first entry whose code matches ASCII case-insensitively.
pub fn find_db_in<'a>(entries: &'a Vec<DatabaseEntry>, code: &str) -> (r: Option<
    &'a DatabaseEntry,
>)
    ensures
        match r {
            Some(e) => {
                let i = spec_find_db(entries@, code@);
                i is Some && 0 <= i->Some_0 < entries@.len() && *e == entries@[i->Some_0]
                    && ci_equal(e.code@, code@)
            },
            None => spec_find_db(entries@, code@) is None,
        },
{
    let n = entries.len();
    for i in 0..n
        invariant
            n == entries.len(),
            forall|j: int| 0 <= j < i ==> !ci_equal((#[trigger] entries@[j]).code@, code@),
    {
        if ci_equal_exec(entries[i].code.as_str(), code) {
            proof {
                lemma_find_db_skip(entries@, code@, i as int);
                assert(entries@.skip(i as int)[0] == entries@[i as int]);
            }
            return Some(&entries[i]);
        }
    }
    proof {
        lemma_find_db_skip(entries@, code@, n as int);
        assert(entries@.skip(n as int).len() == 0);
    }
    None
}

/// ASCII case-insensitive string equality.
fn ci_equal_exec(a: &str, b: &str) -> (r: bool)
    ensures
        r == ci_equal(a@, b@),
{
    crate::text::eq_ignore_case(a, b)
}

/// Copies one database entry field by field.
fn clone_entry(e: &DatabaseEntry) -> (r: DatabaseEntry)
    ensures
        r.category_ja@ == e.category_ja@,
        r.code@ == e.code@,
        r.name_ja@ == e.name_ja@,
{
    DatabaseEntry {
        category_ja: e.category_ja.clone(),
        code: e.code.clone(),
        name_ja: e.name_ja.clone(),
    }
}

/// First catalog code matching ASCII case-insensitively.
pub open spec fn first_ci_match(codes: Seq<Seq<char>>, code: Seq<char>) -> Option<int>
    decreases codes.len(),
{
    if codes.len() == 0 {
        None
    } else if ci_equal(codes[0], code) {
        Some(0)
    } else {
        match first_ci_match(codes.drop_first(), code) {
            Some(i) => Some(i + 1),
            None => None,
        }
    }
}

/// Searching entries by code finds the same position as searching their
/// codes.
proof fn lemma_find_db_tracks_codes(
    entries: Seq<DatabaseEntry>,
    codes: Seq<Seq<char>>,
    code: Seq<char>,
)
    requires
        entries.len() == codes.len(),
        forall|i: int| 0 <= i < entries.len() ==> (#[trigger] entries[i]).code@ == codes[i],
    ensures
        spec_find_db(entries, code) == first_ci_match(codes, code),
    decreases entries.len(),
{
    if entries.len() > 0 {
        assert(entries[0].code@ == codes[0]);
        assert(forall|i: int|
            0 <= i < entries.drop_first().len() ==> (#[trigger] entries.drop_first()[i]).code@
                == codes.drop_first()[i]) by {
            assert(forall|i: int|
                0 <= i < entries.drop_first().len() ==> entries.drop_first()[i]
                    == #[trigger] entries[i + 1] && codes.drop_first()[i] == codes[i + 1]);
        }
        lemma_find_db_tracks_codes(entries.drop_first(), codes.drop_first(), code);
    }
}

/// Finds a known database entry by code: a hit exactly when some catalog
/// code matches ASCII case-insensitively, returning the first such entry.
/// The lookup fails open: validation never requires the code to be known.
pub fn find_db(code: &str) -> (r: Option<DatabaseEntry>)
    ensures
        match r {
            Some(e) => {
                let i = first_ci_match(catalog_db_codes(), code@);
                i is Some && e.code@ == catalog_db_codes()[i->Some_0] && ci_equal(
                    e.code@,
                    code@,
                )
            },
            None => first_ci_match(catalog_db_codes(), code@) is None,
        },
{
    let entries = databases();
    proof {
        lemma_find_db_tracks_codes(entries@, catalog_db_codes(), code@);
    }
    match find_db_in(&entries, code) {
        Some(e) => Some(clone_entry(e)),
        None => None,
    }
}

/// Whether the code names a known database: true exactly when some catalog
/// code matches ASCII case-insensitively.
pub fn is_known_db(code: &str) -> (r: bool)
    ensures
        r == (first_ci_match(catalog_db_codes(), code@) is Some),
{
    let entries = databases();
    proof {
        lemma_find_db_tracks_codes(entries@, catalog_db_codes(), code@);
    }
    match find_db_in(&entries, code) {
        Some(_) => true,
        None => false,
    }
}

} // verus!
