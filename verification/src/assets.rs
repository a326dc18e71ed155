//! The texts that the bridge ships with: the browser client and the default configuration.
use vstd::prelude::*;

verus! {

/// The main style sheet of the browser client.
pub const CSS_MAIN: &'static str =
    "body {
    font-family: sans-serif;
    margin: 1em;
}

.switch {
    display: flex;
    align-items: center;
    gap: 0.5em;
    margin: 0.5em 0;
}

.switch-label {
    flex: 1;
}

.switch-state {
    width: 6em;
}
";

/// The page of the browser client. The tags in triple braces are filled in.
pub const HTML_GUI_TEMPLATE: &'static str =
    "<!DOCTYPE html>
<html>
    <head>
        <title>Beelay</title>
        <meta name=\"viewport\" content=\"width=device-width, initial-scale=1\">
        <link rel=\"stylesheet\" href=\"/{{{css_path}}}\">
        <script>
            function show(id, url) {
                fetch(url).then(resp => resp.json()).then(answer => {
                    document.getElementById(id).textContent = answer.state || answer.error_message;
                });
            }
            function command(id, postUrl, getUrl) {
                fetch(postUrl, { method: \"POST\" }).then(() => show(id, getUrl));
            }
        </script>
    </head>
    <body>
        <h1>Beelay</h1>
        <p>{{{status}}}</p>
{{{buttons}}}
    </body>
</html>
";

/// The part of the page for one switch. The tags in triple braces are filled in.
pub const HTML_BUTTON_ELEM_TEMPLATE: &'static str =
    "        <div class=\"switch\">
            <span class=\"switch-label\">{{{label}}}</span>
            <span class=\"switch-state\" id=\"{{{id}}}\"></span>
            <button onclick=\"command('{{{id}}}', '{{{post_on_url}}}', '{{{get_url}}}')\">On</button>
            <button onclick=\"command('{{{id}}}', '{{{post_off_url}}}', '{{{get_url}}}')\">Off</button>
            <button onclick=\"show('{{{id}}}', '{{{get_url}}}')\">State</button>
        </div>";

/// The configuration that applies where no other is given.
pub const DEFAULT_CONFIG: &'static str =
    "[service]
bind_address = \"127.0.0.1\"
port = 9999
cache_dir = \"/run/beelay\"

[mqttbroker]
host = \"localhost\"
port = 1883
topic = \"zigbee2mqtt\"
";

} // verus!
