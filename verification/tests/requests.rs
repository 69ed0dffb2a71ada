use jumpserver_client::requests::{
    base_delete_request, base_get_request, base_post_request, format_tz_offset, request_head,
    to_api_response, tz_offset_string, HttpMethod, HttpReply,
};

fn reply(status: u16, body: &str) -> Result<HttpReply, String> {
    Ok(HttpReply { status, body: body.to_string() })
}

#[test]
fn answered_call_succeeds_only_for_200_201_204() {
    for status in [200u16, 201, 204] {
        let response = to_api_response(reply(status, "ok"));
        assert_eq!(response.status, status);
        assert_eq!(response.data, "ok");
        assert!(response.success);
    }
    for status in [0u16, 100, 199, 202, 203, 205, 301, 400, 401, 404, 500] {
        let response = to_api_response(reply(status, "no"));
        assert_eq!(response.status, status);
        assert_eq!(response.data, "no");
        assert!(!response.success);
    }
}

#[test]
fn transport_failure_becomes_status_zero() {
    let response = to_api_response(Err("dns error".to_string()));
    assert_eq!(response.status, 0);
    assert!(!response.success);
    assert_eq!(response.data, "请求失败: dns error");
}

#[test]
fn tz_offset_of_whole_and_half_hours() {
    assert_eq!(format_tz_offset(0), "+00:00");
    assert_eq!(format_tz_offset(8 * 3600), "+08:00");
    assert_eq!(format_tz_offset(5 * 3600 + 30 * 60), "+05:30");
    assert_eq!(format_tz_offset(12 * 3600 + 45 * 60), "+12:45");
    assert_eq!(format_tz_offset(-5 * 3600), "-05:00");
    assert_eq!(format_tz_offset(-11 * 3600), "-11:00");
}

#[test]
fn tz_offset_carries_the_sign_into_the_minutes() {
    assert_eq!(format_tz_offset(-(3 * 3600 + 30 * 60)), "-03:-30");
    assert_eq!(format_tz_offset(-(9 * 3600 + 5 * 60)), "-09:-5");
    assert_eq!(format_tz_offset(-30 * 60), "+00:-30");
    assert_eq!(format_tz_offset(-59), "+00:00");
    assert_eq!(format_tz_offset(59), "+00:00");
    assert_eq!(format_tz_offset(86_399), "+23:59");
    assert_eq!(format_tz_offset(-86_399), "-23:-59");
}

#[test]
fn tz_offset_outside_a_day_is_still_written() {
    assert_eq!(format_tz_offset(100 * 3600), "+100:00");
    assert_eq!(format_tz_offset(i32::MAX), "+596523:14");
    assert_eq!(format_tz_offset(i32::MIN), "-596523:-14");
}

#[test]
fn local_tz_offset_has_the_shape_of_an_offset() {
    let text = tz_offset_string();
    let (hours, minutes) = text.split_once(':').unwrap();
    assert!(hours.starts_with('+') || hours.starts_with('-'));
    assert_eq!(hours.len(), 3);
    let h: i32 = hours[1..].parse().unwrap();
    assert!(h <= 23);
    let m: i32 = minutes.parse().unwrap();
    assert!(-59 <= m && m <= 59);
    assert!(minutes.len() >= 2);
}

#[test]
fn request_head_carries_cookie_zone_and_token() {
    let head = request_head(
        HttpMethod::Post,
        "https://js.example.com/api/v1/users/profile/",
        "sessionid=xyz; jms_csrftoken=abc",
        8 * 3600,
    );
    assert_eq!(head.method, HttpMethod::Post);
    assert_eq!(head.url, "https://js.example.com/api/v1/users/profile/");
    assert_eq!(head.cookie, "sessionid=xyz; jms_csrftoken=abc");
    assert_eq!(head.tz, "+08:00");
    assert_eq!(head.csrf_token, "abc");
}

#[test]
fn request_head_falls_back_to_csrftoken_then_to_nothing() {
    assert_eq!(request_head(HttpMethod::Get, "u", "csrftoken=t", 0).csrf_token, "t");
    assert_eq!(request_head(HttpMethod::Get, "u", "sessionid=1", 0).csrf_token, "");
}

#[test]
fn base_requests_differ_in_the_method_only() {
    let get = base_get_request("https://h/a", "jms_csrftoken=k");
    let post = base_post_request("https://h/a", "jms_csrftoken=k");
    let delete = base_delete_request("https://h/a", "jms_csrftoken=k");
    assert_eq!(get.method, HttpMethod::Get);
    assert_eq!(post.method, HttpMethod::Post);
    assert_eq!(delete.method, HttpMethod::Delete);
    for head in [&get, &post, &delete] {
        assert_eq!(head.url, "https://h/a");
        assert_eq!(head.cookie, "jms_csrftoken=k");
        assert_eq!(head.csrf_token, "k");
        assert_eq!(head.tz.len() >= 6, true);
    }
}
