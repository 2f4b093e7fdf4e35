//! Exporters, label tables and the text and date helpers behind them.

use cardcrawl::dates::parse_mdy;
use cardcrawl::dates::render_i64;
use cardcrawl::domain::LastFetchedAt;
use cardcrawl::domain::PokemonCard;
use cardcrawl::domain::Rarity;
use cardcrawl::error::FetchError;
use cardcrawl::one_piece::code_from_image_name;
use cardcrawl::one_piece::OnePieceCard;
use cardcrawl::one_piece::OnePieceCardRarity;
use cardcrawl::one_piece::OnePieceCardType;
use cardcrawl::one_piece_csv;
use cardcrawl::pokemon_csv;
use cardcrawl::pokemon_csv::PokemonCSV;
use cardcrawl::ptcg::code_from_card_href;
use cardcrawl::tcg_collector::parse_rarity_title;
use cardcrawl::text::filter_digits;
use cardcrawl::text::normalize_title;
use cardcrawl::text::trim_text;
use cardcrawl::ws::parse_total_pages;
use cardcrawl::ws::set_code_of;
use cardcrawl::ws::WsCard;
use cardcrawl::ws_csv;
use cardcrawl::yugioh::card_id_from_link;
use cardcrawl::yugioh::joined_number;
use cardcrawl::yugioh::query_param;
use cardcrawl::yugioh::ref_and_number;
use cardcrawl::yugioh::YugiohPrinting;
use cardcrawl::yugioh_csv;

#[test]
fn ws_csv_sanitize_x_kind() {
    let result = ws_csv::sanitize("バトル強化デッキ 3種");
    let expected = "バトル強化デッキ".to_string();
    assert_eq!(result, expected);
}

#[test]
fn ws_csv_sanitize_braces() {
    let result = ws_csv::sanitize("最強爆流コンボデッキ60【カメックス＋キュレムEX】");
    let expected = "最強爆流コンボデッキ60カメックス＋キュレムEX".to_string();
    assert_eq!(result, expected);
}

#[test]
fn one_piece_csv_sanitize_braces() {
    let result = one_piece_csv::sanitize("最強爆流コンボデッキ60【カメックス＋キュレムEX】");
    let expected = "最強爆流コンボデッキ60".to_string();
    assert_eq!(result, expected);
}

#[test]
fn pokemon_csv_sanitize_x_kind() {
    let result = pokemon_csv::sanitize("バトル強化デッキ 3種");
    let expected = "バトル強化デッキ".to_string();
    assert_eq!(result, expected);
}

#[test]
fn pokemon_csv_sanitize_braces() {
    let result = pokemon_csv::sanitize("最強爆流コンボデッキ60【カメックス＋キュレムEX】");
    let expected = "最強爆流コンボデッキ60カメックス＋キュレムEX".to_string();
    assert_eq!(result, expected);
}

#[test]
fn sanitize_unescapes_ampersands() {
    assert_eq!(pokemon_csv::sanitize("Black &amp; White"), "Black & White");
    assert_eq!(one_piece_csv::sanitize("A&amp;B&nbsp;C"), "ABC");
}

#[test]
fn normalize_title_decodes_entities() {
    // fails if the entity decoder handed its argument back unchanged
    assert_eq!(normalize_title("  Wild &amp; Force  "), "Wild & Force");
    assert_eq!(normalize_title(""), "");
    assert_eq!(trim_text("\t a b \n"), "a b");
}

#[test]
fn total_pages_with_thousands_separator() {
    assert_eq!(parse_total_pages("1,786"), Some(1786));
    assert_eq!(parse_total_pages("12"), Some(12));
    assert_eq!(parse_total_pages(""), None);
    assert_eq!(parse_total_pages("12a"), None);
    assert_eq!(parse_total_pages("4294967295"), Some(u32::MAX));
    assert_eq!(parse_total_pages("4294967296"), None);
}

#[test]
fn ws_set_code_before_slash() {
    assert_eq!(set_code_of("BSF/S104-001"), Some("BSF".to_string()));
    assert_eq!(set_code_of("no slash"), None);
}

#[test]
fn card_href_tail_code() {
    assert_eq!(
        code_from_card_href("/tw/card-search/detail/12345/"),
        Some("12345".to_string())
    );
    assert_eq!(code_from_card_href("no-trailing-slash"), None);
    assert_eq!(code_from_card_href(""), None);
}

#[test]
fn image_name_code() {
    assert_eq!(code_from_image_name("OP01-001.png"), Some("OP01-001".to_string()));
    assert_eq!(code_from_image_name("plain"), None);
}

#[test]
fn header_kind_rule() {
    assert_eq!(cardcrawl::ptcg::kind_of_header("招式"), "寶可夢卡");
    assert_eq!(cardcrawl::ptcg::kind_of_header("訓練家"), "訓練家");
}

#[test]
fn set_name_first_dash() {
    assert_eq!(cardcrawl::ws::strip_first_dash("-ある作品"), "ある作品");
    assert_eq!(cardcrawl::ws::strip_first_dash("a-b-c"), "ab-c");
    assert_eq!(cardcrawl::ws::strip_first_dash("plain"), "plain");
}

#[test]
fn digits_filter() {
    assert_eq!(filter_digits("約 1,234 件"), "1234");
    assert_eq!(filter_digits("none"), "");
}

#[test]
fn rarity_labels_round_trip() {
    assert_eq!(Rarity::parse("SAR"), Some(Rarity::SAR));
    assert_eq!(Rarity::parse("UC"), Some(Rarity::U));
    assert_eq!(Rarity::parse("U"), Some(Rarity::U));
    assert_eq!(Rarity::parse("nope"), None);
    assert_eq!(Rarity::parse_or_unknown("nope"), Rarity::Unknown);
    for r in Rarity::all() {
        assert_eq!(Rarity::parse(r.label()), Some(r));
    }
    assert_eq!(Rarity::C.search_label(), 1);
    assert_eq!(Rarity::ACE.search_label(), 18);
    assert_eq!(Rarity::CSR.search_label(), 0);
}

#[test]
fn collector_rarity_titles() {
    assert_eq!(parse_rarity_title("Special Art Rare (SAR)"), Rarity::SAR);
    assert_eq!(parse_rarity_title("Amazing Rare"), Rarity::A);
    assert_eq!(parse_rarity_title("anything else"), Rarity::Unknown);
}

#[test]
fn one_piece_labels() {
    assert_eq!(OnePieceCardRarity::parse("SP卡"), Some(OnePieceCardRarity::SP));
    assert_eq!(OnePieceCardRarity::parse("SPカード"), Some(OnePieceCardRarity::SP));
    assert_eq!(OnePieceCardRarity::parse("SEC"), Some(OnePieceCardRarity::SEC));
    assert_eq!(OnePieceCardRarity::parse("??"), None);
    assert_eq!(OnePieceCardType::parse("事件"), Some(OnePieceCardType::Event));
    assert_eq!(OnePieceCardType::parse("キャラ"), Some(OnePieceCardType::Character));
    assert_eq!(OnePieceCardType::parse("LEADER"), Some(OnePieceCardType::Leader));
    assert_eq!(OnePieceCardType::parse("x"), None);
}

#[test]
fn release_date_parsing() {
    let d = parse_mdy("03-22-2024").unwrap();
    assert_eq!((d.year, d.month, d.day), (2024, 3, 22));
    // leap handling
    assert!(parse_mdy("02-29-2024").is_some());
    assert!(parse_mdy("02-29-2023").is_none());
    assert!(parse_mdy("13-01-2024").is_none());
    assert!(parse_mdy("3-22-2024").is_none());
    assert!(parse_mdy("03/22/2024").is_none());
}

#[test]
fn timestamp_formats() {
    let epoch = LastFetchedAt::new(0);
    assert_eq!(epoch.action_code().unwrap(), "19700101000000");
    assert_eq!(epoch.created_datetime().unwrap(), "01/01/1970 00:00");
    let t = LastFetchedAt::new(1_700_000_000);
    assert_eq!(t.action_code().unwrap(), "20231114221320");
    assert_eq!(t.created_datetime().unwrap(), "14/11/2023 22:13");
    assert_eq!(String::from_iter(render_i64(-57)), "-57");
    assert_eq!(String::from_iter(render_i64(0)), "0");
}

#[test]
fn timestamp_formats_across_century_rules() {
    // a century year divisible by 400 is leap
    let t = LastFetchedAt::new(951_827_445);
    assert_eq!(t.action_code().unwrap(), "20000229123045");
    // a century year not divisible by 400 is not
    let before = LastFetchedAt::new(4_107_542_399);
    assert_eq!(before.action_code().unwrap(), "21000228235959");
    let after = LastFetchedAt::new(4_107_542_400);
    assert_eq!(after.action_code().unwrap(), "21000301000000");
    let leap = LastFetchedAt::new(1_709_164_801);
    assert_eq!(leap.created_datetime().unwrap(), "29/02/2024 00:00");
}

#[test]
fn yugioh_link_card_id() {
    let link = "/yugiohdb/card_search.action?ope=2&cid=4007&request_locale=ja";
    assert_eq!(card_id_from_link(link), Some("4007".to_string()));
    assert_eq!(card_id_from_link("/plain/path"), None);
    assert_eq!(query_param("a=1&b=2", "b"), Some("2".to_string()));
    assert_eq!(query_param("a=1&b=2", "c"), None);
}

#[test]
fn yugioh_number_parts() {
    assert_eq!(ref_and_number("LOB-001"), ("LOB".to_string(), "001".to_string()));
    assert_eq!(ref_and_number("noDash"), ("NONE".to_string(), "000".to_string()));
    assert_eq!(joined_number("LOB", "001"), "LOB-001");
}

#[test]
fn ws_export_row_columns() {
    let card = WsCard {
        name: "ある名前".to_string(),
        code: "BSF/S104-001".to_string(),
        set_code: "BSF".to_string(),
        img_src: "/img/x.png".to_string(),
        rarity: Some("RR".to_string()),
        set_name: "セット 2種".to_string(),
        last_fetched_at: LastFetchedAt::new(0),
    };
    let row = ws_csv::export_row(card);
    assert_eq!(row.brand.as_deref(), Some("Weiβ Schwarz"));
    assert_eq!(row.set.as_deref(), Some("セット"));
    assert_eq!(row.rarity.as_deref(), Some("RR"));
    assert_eq!(row.language.as_deref(), Some("ja"));
    assert_eq!(row.card_number.as_deref(), Some("BSF/S104-001"));
    assert_eq!(row.reference.as_deref(), Some("BSF"));
    assert_eq!(row.remark1.as_deref(), Some("19700101000000"));
    assert_eq!(row.remark2.as_deref(), Some("01/01/1970 00:00"));
    assert_eq!(row.remark4.as_deref(), Some("BSF/S104-001"));
    assert_eq!(row.remark9.as_deref(), Some("BSF"));
    assert!(row.value.is_none());
}

#[test]
fn pokemon_export_row_columns() {
    let card = PokemonCard {
        id: "tw0001".to_string(),
        set_id: "sv5k".to_string(),
        set_name: "ワイルドフォース【拡張】".to_string(),
        set_ref: "sv5k".to_string(),
        name: "カード".to_string(),
        number: Some("001/071".to_string()),
        sale_price: Some(-57),
        rarity: Some("RR".to_string()),
        last_fetched_at: LastFetchedAt::new(1_700_000_000),
        remark: Some("note".to_string()),
    };
    let row = PokemonCSV::from_card(card);
    assert_eq!(row.brand.as_deref(), Some("Pokemon"));
    assert_eq!(row.set.as_deref(), Some("ワイルドフォース拡張"));
    assert_eq!(row.value.as_deref(), Some("-57"));
    assert_eq!(row.remark1.as_deref(), Some("20231114221320"));
    assert_eq!(row.remark2.as_deref(), Some("14/11/2023 22:13"));
    assert_eq!(row.remark3.as_deref(), Some("sv5k"));
    assert_eq!(row.remark4.as_deref(), Some("tw0001"));
    assert_eq!(row.remark9.as_deref(), Some("note"));
}

#[test]
fn one_piece_export_row_columns() {
    let card = OnePieceCard {
        name: "ルフィ".to_string(),
        code: "OP01-001".to_string(),
        img_src: "https://example.invalid/OP01-001.png".to_string(),
        rarity: OnePieceCardRarity::L,
        set_name: "ROMANCE DAWN【OP-01】".to_string(),
        card_type: OnePieceCardType::Leader,
        last_fetched_at: LastFetchedAt::new(0),
        get_info: "info".to_string(),
    };
    let row = one_piece_csv::export_row(card);
    assert_eq!(row.brand.as_deref(), Some("One Piece"));
    assert_eq!(row.set.as_deref(), Some("ROMANCE DAWN"));
    assert_eq!(row.rarity.as_deref(), Some("L"));
    assert_eq!(row.reference.as_deref(), Some("OP01"));
    assert_eq!(row.remark9.as_deref(), Some("OP01"));
    assert_eq!(row.card_number.as_deref(), Some("OP01-001"));
}

#[test]
fn yugioh_export_row_columns() {
    let p = YugiohPrinting {
        card_id: "4007".to_string(),
        name_jp: "ブルーアイズ".to_string(),
        name_en: "Blue-Eyes".to_string(),
        rarity: "Ultra".to_string(),
        number: "LOB-001".to_string(),
        release_date: "1999-03-01".to_string(),
        remark: "1st".to_string(),
        expansion_name: "Legend".to_string(),
        ref_code: "LOB".to_string(),
    };
    let row = yugioh_csv::export_row(p, LastFetchedAt::new(1_700_000_000));
    assert_eq!(row.brand.as_deref(), Some("Yu-Gi-Oh!"));
    assert_eq!(row.release_year.as_deref(), Some("1999"));
    assert_eq!(row.language.as_deref(), Some("JP"));
    assert_eq!(row.remark1.as_deref(), Some("1700000000"));
    assert_eq!(row.remark2.as_deref(), Some("14/11/2023 22:13"));
    assert_eq!(row.remark5.as_deref(), Some("1st"));
    assert_eq!(row.reference.as_deref(), Some("LOB"));
}

#[test]
fn fetch_error_labels() {
    assert_eq!(FetchError::Timeout.label(), "timeout");
    assert_eq!(FetchError::HttpStatus(503).label(), "http status");
    assert_eq!(FetchError::Network.label(), "network");
}
