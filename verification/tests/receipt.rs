use steam_tradeoffer_manager::error::Error;
use steam_tradeoffer_manager::receipt::{read_receipt_page, receipt_item_texts};

#[test]
fn parses_receipt_script_correctly() {
    let script = r#"
            oItem = {"id":"11292488054","owner":"0","amount":"1","classid":"101785959","instanceid":"11040578","icon_url":"fWFc82js0fmoRAP-qOIPu5THSWqfSmTELLqcUywGkijVjZULUrsm1j-9xgEAaR4uURrwvz0N252yVaDVWrRTno9m4ccG2GNqxlQoZrC2aG9hcVGUWflbX_drrVu5UGki5sAij6tOtQ","icon_url_large":"fWFc82js0fmoRAP-qOIPu5THSWqfSmTELLqcUywGkijVjZULUrsm1j-9xgEAaR4uURrwvz0N252yVaDVWrRTno9m4ccG2GNqxlQoZrC2aG9hcVGUWflbX_drrVu5UGki5sAij6tOtQ","icon_drag_url":"","name":"Mann Co. Supply Crate Key","market_hash_name":"Mann Co. Supply Crate Key","market_name":"Mann Co. Supply Crate Key","name_color":"7D6D00","background_color":"3C352E","type":"Level 5 Tool","tradable":1,"marketable":1,"commodity":1,"market_tradable_restriction":"7","market_marketable_restriction":"0","descriptions":[{"value":"Used to open locked supply crates."},{"value":" "},{"value":"This is a limited use item. Uses: 1","color":"00a000","app_data":{"limited":1}}],"tags":[{"internal_name":"Unique","name":"Unique","category":"Quality","color":"7D6D00","category_name":"Quality"},{"internal_name":"TF_T","name":"Tool","category":"Type","category_name":"Type"}],"app_data":{"limited":1,"quantity":"1","def_index":"5021","quality":"6","filter_data":{"1662615936":{"element_ids":["991457757"]},"931505789":{"element_ids":["991457757","4294967295"]}},"player_class_ids":"","highlight_color":"7a6e65"},"pos":1,"appid":440,"contextid":2};
            oItem.appid = 440;
            oItem.contextid = 2;
            oItem.amount = 1;
            oItem.is_stackable = oItem.amount > 1;
            BuildHover( 'item0', oItem, UserYou );
            $('item0').show();
            oItem = {"id":"11292488061","owner":"0","amount":"1","classid":"101785959","instanceid":"11040578","icon_url":"fWFc82js0fmoRAP-qOIPu5THSWqfSmTELLqcUywGkijVjZULUrsm1j-9xgEAaR4uURrwvz0N252yVaDVWrRTno9m4ccG2GNqxlQoZrC2aG9hcVGUWflbX_drrVu5UGki5sAij6tOtQ","icon_url_large":"fWFc82js0fmoRAP-qOIPu5THSWqfSmTELLqcUywGkijVjZULUrsm1j-9xgEAaR4uURrwvz0N252yVaDVWrRTno9m4ccG2GNqxlQoZrC2aG9hcVGUWflbX_drrVu5UGki5sAij6tOtQ","icon_drag_url":"","name":"Mann Co. Supply Crate Key","market_hash_name":"Mann Co. Supply Crate Key","market_name":"Mann Co. Supply Crate Key","name_color":"7D6D00","background_color":"3C352E","type":"Level 5 Tool","tradable":1,"marketable":1,"commodity":1,"market_tradable_restriction":"7","market_marketable_restriction":"0","descriptions":[{"value":"Used to open locked supply crates."},{"value":" "},{"value":"This is a limited use item. Uses: 1","color":"00a000","app_data":{"limited":1}}],"tags":[{"internal_name":"Unique","name":"Unique","category":"Quality","color":"7D6D00","category_name":"Quality"},{"internal_name":"TF_T","name":"Tool","category":"Type","category_name":"Type"}],"app_data":{"limited":1,"quantity":"1","def_index":"5021","quality":"6","filter_data":{"1662615936":{"element_ids":["991457757"]},"931505789":{"element_ids":["991457757","4294967295"]}},"player_class_ids":"","highlight_color":"7a6e65"},"pos":2,"appid":440,"contextid":2};
            oItem.appid = 440;
            oItem.contextid = 2;
            oItem.amount = 1;
            oItem.is_stackable = oItem.amount > 1;
        "#;
    let scripts = receipt_item_texts(script);

    assert_eq!(scripts.len(), 2);

    for text in &scripts {
        let item = serde_json::from_str::<serde_json::Value>(text).unwrap();

        assert_eq!(item["classid"], "101785959");
        assert_eq!(item["instanceid"], "11040578");
        assert_eq!(item["appid"], 440);
        assert_eq!(item["contextid"], 2);
    }
}

#[test]
fn receipt_items_are_json_objects() {
    let script = "var oItem;\n    oItem = {\"id\":\"1\",\"appid\":440};\n    oItem.appid = 440;\n  oItem  =  {\"id\":\"2\"} ;\n oItem = {\"a\":{\"b\":1}};\n";
    let items = receipt_item_texts(script);

    // The second item has a space before its `;`, so it does not match.
    assert_eq!(items, vec!["{\"id\":\"1\",\"appid\":440}".to_string(), "{\"a\":{\"b\":1}}".to_string()]);
}

#[test]
fn reads_receipt_script_from_page() {
    let page = "<html><script>var oItem;\noItem = {\"id\":\"1\"};\n</script><script>x</script></html>";
    let script = read_receipt_page(page).unwrap();

    assert_eq!(script, "var oItem;\noItem = {\"id\":\"1\"};\n</script><script>x");
}

#[test]
fn receipt_page_with_error_message() {
    let page = "<div id=\"error_msg\">\n   Something went wrong   \n</div>";

    assert_eq!(read_receipt_page(page), Err(Error::UnexpectedResponse("Something went wrong".to_string())));
}

#[test]
fn receipt_page_when_logged_out() {
    assert_eq!(read_receipt_page("{\"success\": false}"), Err(Error::NotLoggedIn));
}

#[test]
fn receipt_page_without_script() {
    assert_eq!(
        read_receipt_page("<html></html>"),
        Err(Error::MalformedResponseWithBody("Page does not include receipt script.", "<html></html>".to_string()))
    );
}
