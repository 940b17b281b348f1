//! Dynamic loading through inline script, with no outside script library.

use vstd::prelude::*;

verus! {

/// The text of the inline loader script.
pub closed spec fn spec_dynamic_script() -> Seq<char> {
    r#"<script>
// Simple fetch-based dynamic loading (no external dependencies)
document.addEventListener('DOMContentLoaded', function() {
    const contentArea = document.getElementById('content-area');
    if (!contentArea) return;

    // Handle clicks on file links
    document.addEventListener('click', function(e) {
        const link = e.target.closest('a[data-load]');
        if (!link) return;

        e.preventDefault();
        const url = link.getAttribute('data-load');

        // Loading state
        contentArea.style.opacity = '0.6';

        // Fetch content
        fetch(url)
            .then(r => r.text())
            .then(html => {
                contentArea.innerHTML = html;
                contentArea.style.opacity = '1';

                // Update URL without reload
                history.pushState({}, '', link.href);

                // Update title
                const h1 = contentArea.querySelector('h1');
                if (h1) document.title = h1.textContent;
            })
            .catch(err => {
                contentArea.innerHTML = '<p style="color: #ef4444;">Error loading file</p>';
                contentArea.style.opacity = '1';
            });
    });

    // Handle back/forward buttons
    window.addEventListener('popstate', function() {
        location.reload();
    });
});
</script>"#@
}

/// The inline script that drives dynamic content loading.
pub fn dynamic_script() -> (r: &'static str)
    ensures
        r@ == spec_dynamic_script(),
{
    r#"<script>
// Simple fetch-based dynamic loading (no external dependencies)
document.addEventListener('DOMContentLoaded', function() {
    const contentArea = document.getElementById('content-area');
    if (!contentArea) return;

    // Handle clicks on file links
    document.addEventListener('click', function(e) {
        const link = e.target.closest('a[data-load]');
        if (!link) return;

        e.preventDefault();
        const url = link.getAttribute('data-load');

        // Loading state
        contentArea.style.opacity = '0.6';

        // Fetch content
        fetch(url)
            .then(r => r.text())
            .then(html => {
                contentArea.innerHTML = html;
                contentArea.style.opacity = '1';

                // Update URL without reload
                history.pushState({}, '', link.href);

                // Update title
                const h1 = contentArea.querySelector('h1');
                if (h1) document.title = h1.textContent;
            })
            .catch(err => {
                contentArea.innerHTML = '<p style="color: #ef4444;">Error loading file</p>';
                contentArea.style.opacity = '1';
            });
    });

    // Handle back/forward buttons
    window.addEventListener('popstate', function() {
        location.reload();
    });
});
</script>"#
}

/// Content-only markup for partial updates: the markup as it stands.
pub fn render_partial_content(html_content: &str) -> (r: String)
    ensures
        r@ == html_content@,
{
    html_content.to_owned()
}

/// Check whether a request carries the legacy dynamic-loading header with
/// value `true`.
pub fn is_htmx_request(hx_request_header: Option<&str>) -> (r: bool)
    ensures
        r == (match hx_request_header {
            Some(h) => h@ == "true"@,
            None => false,
        }),
{
    match hx_request_header {
        Some(v) => crate::strings::str_eq(v, "true"),
        None => false,
    }
}

} // verus!
