//! The web pages of fallback authentication, for clients that cannot show
//! a captcha themselves.
use vstd::prelude::*;
use vstd::string::StringExecFns;

verus! {

/// The query of the page that shows the captcha.
#[derive(Debug)]
pub struct FallbackQuery {
    /// The session the captcha completes.
    pub session: String,
}

/// The form that the captcha page posts back.
#[derive(Debug)]
pub struct RecaptchaForm {
    /// The session the captcha completes.
    pub session: String,
    /// The captcha service's response token.
    pub recaptcha_response: String,
}

/// The page that shows the captcha for a session.
pub open spec fn recaptcha_html(site_key: Seq<char>, session_id: Seq<char>) -> Seq<char> {
    "<!DOCTYPE html>
<html>
<head>
    <meta charset=\"utf-8\">
    <meta name=\"viewport\" content=\"width=device-width, initial-scale=1\">
    <title>Authentication Required</title>
    <script src=\"https://www.google.com/recaptcha/api.js\" async defer></script>
    <style>
        body {
            font-family: -apple-system, BlinkMacSystemFont, \"Segoe UI\", Roboto, Helvetica, Arial, sans-serif;
            display: flex;
            justify-content: center;
            align-items: center;
            min-height: 100vh;
            margin: 0;
            background: linear-gradient(135deg, #667eea 0%, #764ba2 100%);
        }
        .container {
            background: white;
            padding: 2rem;
            border-radius: 12px;
            box-shadow: 0 10px 40px rgba(0,0,0,0.2);
            text-align: center;
            max-width: 400px;
        }
        h1 {
            color: #333;
            margin-bottom: 1rem;
            font-size: 1.5rem;
        }
        p {
            color: #666;
            margin-bottom: 1.5rem;
        }
        .g-recaptcha {
            display: inline-block;
            margin-bottom: 1rem;
        }
        button {
            background: linear-gradient(135deg, #667eea 0%, #764ba2 100%);
            color: white;
            border: none;
            padding: 12px 32px;
            border-radius: 6px;
            font-size: 1rem;
            cursor: pointer;
            transition: transform 0.2s, box-shadow 0.2s;
        }
        button:hover {
            transform: translateY(-2px);
            box-shadow: 0 4px 12px rgba(102, 126, 234, 0.4);
        }
    </style>
</head>
<body>
    <div class=\"container\">
        <h1>Verify You're Human</h1>
        <p>Please complete the reCAPTCHA below to continue.</p>
        <form method=\"POST\">
            <input type=\"hidden\" name=\"session\" value=\""@ + session_id + "\">
            <div class=\"g-recaptcha\" data-sitekey=\""@ + site_key + "\"></div>
            <br>
            <button type=\"submit\">Submit</button>
        </form>
    </div>
</body>
</html>"@
}

/// The page that shows the captcha for a session.
pub fn generate_recaptcha_html(site_key: &str, session_id: &str) -> (r: String)
    ensures
        r@ == recaptcha_html(site_key@, session_id@),
{
    let mut r = String::from_str("<!DOCTYPE html>
<html>
<head>
    <meta charset=\"utf-8\">
    <meta name=\"viewport\" content=\"width=device-width, initial-scale=1\">
    <title>Authentication Required</title>
    <script src=\"https://www.google.com/recaptcha/api.js\" async defer></script>
    <style>
        body {
            font-family: -apple-system, BlinkMacSystemFont, \"Segoe UI\", Roboto, Helvetica, Arial, sans-serif;
            display: flex;
            justify-content: center;
            align-items: center;
            min-height: 100vh;
            margin: 0;
            background: linear-gradient(135deg, #667eea 0%, #764ba2 100%);
        }
        .container {
            background: white;
            padding: 2rem;
            border-radius: 12px;
            box-shadow: 0 10px 40px rgba(0,0,0,0.2);
            text-align: center;
            max-width: 400px;
        }
        h1 {
            color: #333;
            margin-bottom: 1rem;
            font-size: 1.5rem;
        }
        p {
            color: #666;
            margin-bottom: 1.5rem;
        }
        .g-recaptcha {
            display: inline-block;
            margin-bottom: 1rem;
        }
        button {
            background: linear-gradient(135deg, #667eea 0%, #764ba2 100%);
            color: white;
            border: none;
            padding: 12px 32px;
            border-radius: 6px;
            font-size: 1rem;
            cursor: pointer;
            transition: transform 0.2s, box-shadow 0.2s;
        }
        button:hover {
            transform: translateY(-2px);
            box-shadow: 0 4px 12px rgba(102, 126, 234, 0.4);
        }
    </style>
</head>
<body>
    <div class=\"container\">
        <h1>Verify You're Human</h1>
        <p>Please complete the reCAPTCHA below to continue.</p>
        <form method=\"POST\">
            <input type=\"hidden\" name=\"session\" value=\"");
    r.append(session_id);
    r.append("\">
            <div class=\"g-recaptcha\" data-sitekey=\"");
    r.append(site_key);
    r.append("\"></div>
            <br>
            <button type=\"submit\">Submit</button>
        </form>
    </div>
</body>
</html>");
    r
}

/// The page that reports a failed captcha and offers it again.
pub open spec fn error_html(session_id: Seq<char>, error_message: Seq<char>) -> Seq<char> {
    "<!DOCTYPE html>
<html>
<head>
    <meta charset=\"utf-8\">
    <meta name=\"viewport\" content=\"width=device-width, initial-scale=1\">
    <title>Authentication Error</title>
    <script src=\"https://www.google.com/recaptcha/api.js\" async defer></script>
    <style>
        body {
            font-family: -apple-system, BlinkMacSystemFont, \"Segoe UI\", Roboto, Helvetica, Arial, sans-serif;
            display: flex;
            justify-content: center;
            align-items: center;
            min-height: 100vh;
            margin: 0;
            background: linear-gradient(135deg, #667eea 0%, #764ba2 100%);
        }
        .container {
            background: white;
            padding: 2rem;
            border-radius: 12px;
            box-shadow: 0 10px 40px rgba(0,0,0,0.2);
            text-align: center;
            max-width: 400px;
        }
        h1 {
            color: #e74c3c;
            margin-bottom: 1rem;
            font-size: 1.5rem;
        }
        .error {
            color: #e74c3c;
            margin-bottom: 1.5rem;
        }
        p {
            color: #666;
            margin-bottom: 1.5rem;
        }
        .g-recaptcha {
            display: inline-block;
            margin-bottom: 1rem;
        }
        button {
            background: linear-gradient(135deg, #667eea 0%, #764ba2 100%);
            color: white;
            border: none;
            padding: 12px 32px;
            border-radius: 6px;
            font-size: 1rem;
            cursor: pointer;
            transition: transform 0.2s, box-shadow 0.2s;
        }
        button:hover {
            transform: translateY(-2px);
            box-shadow: 0 4px 12px rgba(102, 126, 234, 0.4);
        }
    </style>
</head>
<body>
    <div class=\"container\">
        <h1>Error</h1>
        <p class=\"error\">"@ + error_message + "</p>
        <form method=\"POST\">
            <input type=\"hidden\" name=\"session\" value=\""@ + session_id + "\">
            <div class=\"g-recaptcha\" data-sitekey=\"\"></div>
            <br>
            <button type=\"submit\">Try Again</button>
        </form>
    </div>
</body>
</html>"@
}

/// The page that reports a failed captcha and offers it again.
pub fn generate_error_html(session_id: &str, error_message: &str) -> (r: String)
    ensures
        r@ == error_html(session_id@, error_message@),
{
    let mut r = String::from_str("<!DOCTYPE html>
<html>
<head>
    <meta charset=\"utf-8\">
    <meta name=\"viewport\" content=\"width=device-width, initial-scale=1\">
    <title>Authentication Error</title>
    <script src=\"https://www.google.com/recaptcha/api.js\" async defer></script>
    <style>
        body {
            font-family: -apple-system, BlinkMacSystemFont, \"Segoe UI\", Roboto, Helvetica, Arial, sans-serif;
            display: flex;
            justify-content: center;
            align-items: center;
            min-height: 100vh;
            margin: 0;
            background: linear-gradient(135deg, #667eea 0%, #764ba2 100%);
        }
        .container {
            background: white;
            padding: 2rem;
            border-radius: 12px;
            box-shadow: 0 10px 40px rgba(0,0,0,0.2);
            text-align: center;
            max-width: 400px;
        }
        h1 {
            color: #e74c3c;
            margin-bottom: 1rem;
            font-size: 1.5rem;
        }
        .error {
            color: #e74c3c;
            margin-bottom: 1.5rem;
        }
        p {
            color: #666;
            margin-bottom: 1.5rem;
        }
        .g-recaptcha {
            display: inline-block;
            margin-bottom: 1rem;
        }
        button {
            background: linear-gradient(135deg, #667eea 0%, #764ba2 100%);
            color: white;
            border: none;
            padding: 12px 32px;
            border-radius: 6px;
            font-size: 1rem;
            cursor: pointer;
            transition: transform 0.2s, box-shadow 0.2s;
        }
        button:hover {
            transform: translateY(-2px);
            box-shadow: 0 4px 12px rgba(102, 126, 234, 0.4);
        }
    </style>
</head>
<body>
    <div class=\"container\">
        <h1>Error</h1>
        <p class=\"error\">");
    r.append(error_message);
    r.append("</p>
        <form method=\"POST\">
            <input type=\"hidden\" name=\"session\" value=\"");
    r.append(session_id);
    r.append("\">
            <div class=\"g-recaptcha\" data-sitekey=\"\"></div>
            <br>
            <button type=\"submit\">Try Again</button>
        </form>
    </div>
</body>
</html>");
    r
}

/// The page that tells the client the stage is complete.
pub open spec fn success_html() -> Seq<char> {
    "<!DOCTYPE html>
<html>
<head>
    <meta charset=\"utf-8\">
    <meta name=\"viewport\" content=\"width=device-width, initial-scale=1\">
    <title>Authentication Successful</title>
    <style>
        body {
            font-family: -apple-system, BlinkMacSystemFont, \"Segoe UI\", Roboto, Helvetica, Arial, sans-serif;
            display: flex;
            justify-content: center;
            align-items: center;
            min-height: 100vh;
            margin: 0;
            background: linear-gradient(135deg, #667eea 0%, #764ba2 100%);
        }
        .container {
            background: white;
            padding: 2rem;
            border-radius: 12px;
            box-shadow: 0 10px 40px rgba(0,0,0,0.2);
            text-align: center;
            max-width: 400px;
        }
        h1 {
            color: #27ae60;
            margin-bottom: 1rem;
            font-size: 1.5rem;
        }
        .checkmark {
            font-size: 4rem;
            color: #27ae60;
            margin-bottom: 1rem;
        }
        p {
            color: #666;
        }
    </style>
</head>
<body>
    <div class=\"container\">
        <div class=\"checkmark\">✓</div>
        <h1>Verification Complete</h1>
        <p>You may now close this window and return to your application.</p>
    </div>
    <script>
        // Notify the parent window (the Matrix client) that auth succeeded
        if (window.opener) {
            window.opener.postMessage(\"m.login.recaptcha\", \"*\");
        }
        // Also try parent for iframe-based clients
        if (window.parent && window.parent !== window) {
            window.parent.postMessage(\"m.login.recaptcha\", \"*\");
        }
    </script>
</body>
</html>"@
}

/// The page that tells the client the stage is complete.
pub fn generate_success_html() -> (r: String)
    ensures
        r@ == success_html(),
{
    String::from_str("<!DOCTYPE html>
<html>
<head>
    <meta charset=\"utf-8\">
    <meta name=\"viewport\" content=\"width=device-width, initial-scale=1\">
    <title>Authentication Successful</title>
    <style>
        body {
            font-family: -apple-system, BlinkMacSystemFont, \"Segoe UI\", Roboto, Helvetica, Arial, sans-serif;
            display: flex;
            justify-content: center;
            align-items: center;
            min-height: 100vh;
            margin: 0;
            background: linear-gradient(135deg, #667eea 0%, #764ba2 100%);
        }
        .container {
            background: white;
            padding: 2rem;
            border-radius: 12px;
            box-shadow: 0 10px 40px rgba(0,0,0,0.2);
            text-align: center;
            max-width: 400px;
        }
        h1 {
            color: #27ae60;
            margin-bottom: 1rem;
            font-size: 1.5rem;
        }
        .checkmark {
            font-size: 4rem;
            color: #27ae60;
            margin-bottom: 1rem;
        }
        p {
            color: #666;
        }
    </style>
</head>
<body>
    <div class=\"container\">
        <div class=\"checkmark\">✓</div>
        <h1>Verification Complete</h1>
        <p>You may now close this window and return to your application.</p>
    </div>
    <script>
        // Notify the parent window (the Matrix client) that auth succeeded
        if (window.opener) {
            window.opener.postMessage(\"m.login.recaptcha\", \"*\");
        }
        // Also try parent for iframe-based clients
        if (window.parent && window.parent !== window) {
            window.parent.postMessage(\"m.login.recaptcha\", \"*\");
        }
    </script>
</body>
</html>")
}

} // verus!
